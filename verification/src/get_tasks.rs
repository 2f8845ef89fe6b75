//! The task listing of a quest for one address: every task of the quest with
//! a flag that says whether the address has completed it, ascending by id.

use vstd::prelude::*;
use std::collections::HashSet;
use crate::task::{Task, TaskView, task_views};
use crate::completion::{CompletionRecord, CompletionView, completion_views, has_completion};

verus! {

/// A task as listed for one address.
#[derive(Debug)]
pub struct UserTask {
    pub id: u32,
    pub quest_id: u32,
    pub name: String,
    pub href: String,
    pub cta: String,
    pub verify_endpoint: String,
    pub desc: String,
    pub completed: bool,
}

/// The mathematical value of a [`UserTask`].
pub struct UserTaskView {
    pub id: u32,
    pub quest_id: u32,
    pub name: Seq<char>,
    pub href: Seq<char>,
    pub cta: Seq<char>,
    pub verify_endpoint: Seq<char>,
    pub desc: Seq<char>,
    pub completed: bool,
}

impl View for UserTask {
    type V = UserTaskView;

    open spec fn view(&self) -> UserTaskView {
        UserTaskView {
            id: self.id,
            quest_id: self.quest_id,
            name: self.name@,
            href: self.href@,
            cta: self.cta@,
            verify_endpoint: self.verify_endpoint@,
            desc: self.desc@,
            completed: self.completed,
        }
    }
}

/// The message sent in place of a listing.
#[derive(Debug)]
pub struct QueryError {
    pub error: String,
}

/// What a listing is asked for: a quest and the claimant's address.
#[derive(Debug)]
pub struct GetTasksQuery {
    pub quest_id: u32,
    pub addr: String,
}

/// The values of a sequence of rows, in the same order.
pub open spec fn row_views(rows: Seq<UserTask>) -> Seq<UserTaskView> {
    rows.map_values(|r: UserTask| r@)
}

/// The row that lists `task` with the given completion flag.
pub open spec fn row_of(task: TaskView, completed: bool) -> UserTaskView {
    UserTaskView {
        id: task.id,
        quest_id: task.quest_id,
        name: task.name,
        href: task.href,
        cta: task.cta,
        verify_endpoint: task.verify_endpoint,
        desc: task.desc,
        completed,
    }
}

/// The tasks of quest `quest_id`, in the order of `tasks`, each flagged with
/// whether `records` holds its completion by `address`.
pub open spec fn joined(
    tasks: Seq<TaskView>,
    records: Seq<CompletionView>,
    quest_id: u32,
    address: Seq<char>,
) -> Seq<UserTaskView>
    decreases tasks.len(),
{
    if tasks.len() == 0 {
        Seq::empty()
    } else {
        let rest = joined(tasks.drop_last(), records, quest_id, address);
        let task = tasks.last();
        if task.quest_id == quest_id {
            rest.push(row_of(task, has_completion(records, task.id, address)))
        } else {
            rest
        }
    }
}

/// Ascending by id.
pub open spec fn ordered_by_id(rows: Seq<UserTaskView>) -> bool {
    forall|i: int, j: int| 0 <= i < j < rows.len() ==> rows[i].id <= rows[j].id
}

/// `rows` with `row` placed behind the last row whose id is not greater.
pub open spec fn place_row(rows: Seq<UserTaskView>, row: UserTaskView) -> Seq<UserTaskView>
    decreases rows.len(),
{
    if rows.len() == 0 {
        seq![row]
    } else if rows.last().id <= row.id {
        rows.push(row)
    } else {
        place_row(rows.drop_last(), row).push(rows.last())
    }
}

/// `rows` ascending by id; rows of equal id keep the order they came in.
pub open spec fn sorted_by_id(rows: Seq<UserTaskView>) -> Seq<UserTaskView>
    decreases rows.len(),
{
    if rows.len() == 0 {
        rows
    } else {
        place_row(sorted_by_id(rows.drop_last()), rows.last())
    }
}

/// Whether `p` is where `row` belongs in `rows`: every row from `p` on has a
/// greater id, and the row before `p`, if any, has not.
pub open spec fn is_place(rows: Seq<UserTaskView>, row: UserTaskView, p: int) -> bool {
    &&& 0 <= p <= rows.len()
    &&& forall|j: int| p <= j < rows.len() ==> rows[j].id > row.id
    &&& p == 0 || rows[p - 1].id <= row.id
}

/// Placing a row is inserting it at the one position that keeps the order
/// and leaves it behind its equals.
pub proof fn lemma_place_row_at(rows: Seq<UserTaskView>, row: UserTaskView, p: int)
    requires
        is_place(rows, row, p),
    ensures
        place_row(rows, row) == rows.insert(p, row),
    decreases rows.len(),
{
    if rows.len() == 0 {
        assert(seq![row] =~= rows.insert(p, row));
    } else if p == rows.len() {
        assert(rows.push(row) =~= rows.insert(p, row));
    } else {
        lemma_place_row_at(rows.drop_last(), row, p);
        assert(rows.drop_last().insert(p, row).push(rows.last()) =~= rows.insert(p, row));
    }
}

/// Placing a row into ordered rows keeps them ordered and adds that row and
/// nothing else.
pub proof fn lemma_place_row(rows: Seq<UserTaskView>, row: UserTaskView)
    requires
        ordered_by_id(rows),
    ensures
        ordered_by_id(place_row(rows, row)),
        place_row(rows, row).to_multiset() == rows.to_multiset().insert(row),
    decreases rows.len(),
{
    broadcast use vstd::seq_lib::group_to_multiset_ensures;

    lemma_place_position_exists(rows, row);
    let p = choose|p: int| is_place(rows, row, p);
    lemma_place_row_at(rows, row, p);
    let placed = rows.insert(p, row);
    assert forall|i: int, j: int| 0 <= i < j < placed.len() implies placed[i].id
        <= placed[j].id by {
        if j < p {
            assert(placed[i] == rows[i] && placed[j] == rows[j]);
        } else if j == p {
            assert(placed[i] == rows[i]);
            if p > 0 {
                assert(rows[i].id <= rows[p - 1].id);
            }
        } else if i < p {
            assert(placed[i] == rows[i] && placed[j] == rows[j - 1]);
        } else if i == p {
            assert(placed[j] == rows[j - 1]);
        } else {
            assert(placed[i] == rows[i - 1] && placed[j] == rows[j - 1]);
        }
    }
    assert(placed.remove(p) =~= rows);
    assert(placed[p] == row);
    vstd::seq_lib::to_multiset_remove(placed, p);
    placed.to_multiset_ensures();
    assert(placed.to_multiset() =~= rows.to_multiset().insert(row));
}

/// Every sequence of rows has the position that `place_row` picks.
pub proof fn lemma_place_position_exists(rows: Seq<UserTaskView>, row: UserTaskView)
    ensures
        exists|p: int| is_place(rows, row, p),
    decreases rows.len(),
{
    if rows.len() == 0 {
        let p: int = 0;
        assert(is_place(rows, row, p));
    } else if rows.last().id <= row.id {
        let p: int = rows.len() as int;
        assert(is_place(rows, row, p));
    } else {
        let front = rows.drop_last();
        lemma_place_position_exists(front, row);
        let p = choose|p: int| is_place(front, row, p);
        assert forall|j: int| p <= j < rows.len() implies rows[j].id > row.id by {
            if j < front.len() {
                assert(rows[j] == front[j]);
            }
        }
        if p > 0 {
            assert(rows[p - 1] == front[p - 1]);
        }
        assert(is_place(rows, row, p));
    }
}

/// Sorting yields the same rows in ascending order of id.
pub proof fn lemma_sorted_is_ordered(rows: Seq<UserTaskView>)
    ensures
        ordered_by_id(sorted_by_id(rows)),
        sorted_by_id(rows).to_multiset() == rows.to_multiset(),
        sorted_by_id(rows).len() == rows.len(),
    decreases rows.len(),
{
    broadcast use vstd::seq_lib::group_to_multiset_ensures;

    if rows.len() == 0 {
    } else {
        let front = rows.drop_last();
        lemma_sorted_is_ordered(front);
        lemma_place_row(sorted_by_id(front), rows.last());
        assert(front.push(rows.last()) =~= rows);
        assert(rows.to_multiset() == front.to_multiset().insert(rows.last()));
        sorted_by_id(rows).to_multiset_ensures();
        rows.to_multiset_ensures();
    }
}

/// The rows with the id `id`, in the order in which they stand in `rows`.
pub open spec fn rows_with_id(rows: Seq<UserTaskView>, id: u32) -> Seq<UserTaskView>
    decreases rows.len(),
{
    if rows.len() == 0 {
        rows
    } else if rows.last().id == id {
        rows_with_id(rows.drop_last(), id).push(rows.last())
    } else {
        rows_with_id(rows.drop_last(), id)
    }
}

/// A placed row comes behind the rows of its own id, and the rows of every
/// other id stay as they were.
pub proof fn lemma_place_row_keeps_order(rows: Seq<UserTaskView>, row: UserTaskView, id: u32)
    ensures
        rows_with_id(place_row(rows, row), id) == (if row.id == id {
            rows_with_id(rows, id).push(row)
        } else {
            rows_with_id(rows, id)
        }),
    decreases rows.len(),
{
    if rows.len() == 0 {
        assert(seq![row].drop_last() =~= rows);
    } else if rows.last().id <= row.id {
        assert(rows.push(row).drop_last() =~= rows);
    } else {
        let inner = place_row(rows.drop_last(), row);
        lemma_place_row_keeps_order(rows.drop_last(), row, id);
        assert(inner.push(rows.last()).drop_last() =~= inner);
    }
}

/// Sorting is stable: the rows of each id come out in the order in which
/// they went in.
pub proof fn lemma_sorted_is_stable(rows: Seq<UserTaskView>, id: u32)
    ensures
        rows_with_id(sorted_by_id(rows), id) == rows_with_id(rows, id),
    decreases rows.len(),
{
    if rows.len() > 0 {
        lemma_sorted_is_stable(rows.drop_last(), id);
        lemma_place_row_keeps_order(sorted_by_id(rows.drop_last()), rows.last(), id);
    }
}

impl UserTask {
    /// An independent copy with the same value.
    pub fn duplicate(&self) -> (out: UserTask)
        ensures
            out@ == self@,
    {
        UserTask {
            id: self.id,
            quest_id: self.quest_id,
            name: self.name.clone(),
            href: self.href.clone(),
            cta: self.cta.clone(),
            verify_endpoint: self.verify_endpoint.clone(),
            desc: self.desc.clone(),
            completed: self.completed,
        }
    }

    /// The row that lists `task` with the given completion flag.
    pub fn of_task(task: &Task, completed: bool) -> (out: UserTask)
        ensures
            out@ == row_of(task@, completed),
    {
        UserTask {
            id: task.id,
            quest_id: task.quest_id,
            name: task.name.clone(),
            href: task.href.clone(),
            cta: task.cta.clone(),
            verify_endpoint: task.verify_endpoint.clone(),
            desc: task.desc.clone(),
            completed,
        }
    }
}

/// Sorts rows ascending by id. Rows of equal id keep their order.
pub fn sort_by_id(rows: &Vec<UserTask>) -> (out: Vec<UserTask>)
    ensures
        row_views(out@) == sorted_by_id(row_views(rows@)),
        ordered_by_id(row_views(out@)),
        row_views(out@).to_multiset() == row_views(rows@).to_multiset(),
        forall|id: u32| #[trigger]
            rows_with_id(row_views(out@), id) == rows_with_id(row_views(rows@), id),
        out@.len() == rows@.len(),
{
    let mut out: Vec<UserTask> = Vec::new();
    let mut i: usize = 0;
    assert(row_views(rows@).take(0) =~= Seq::empty());
    assert(row_views(out@) =~= Seq::empty());
    while i < rows.len()
        invariant
            0 <= i <= rows@.len(),
            out@.len() == i,
            row_views(out@) == sorted_by_id(row_views(rows@).take(i as int)),
        decreases rows@.len() - i,
    {
        let row = rows[i].duplicate();
        let mut p: usize = out.len();
        while p > 0 && out[p - 1].id > row.id
            invariant
                0 <= p <= out@.len(),
                forall|j: int| p <= j < out@.len() ==> out@[j].id > row.id,
            decreases p,
        {
            p = p - 1;
        }
        proof {
            let before = row_views(out@);
            let prefix = row_views(rows@).take(i as int);
            let next = row_views(rows@).take(i + 1);
            assert(next.drop_last() =~= prefix);
            assert(next.last() == row@);
            lemma_place_row_at(before, row@, p as int);
            assert(row_views(out@.insert(p as int, row)) =~= before.insert(p as int, row@));
        }
        out.insert(p, row);
        i = i + 1;
    }
    proof {
        assert(row_views(rows@).take(i as int) =~= row_views(rows@));
        lemma_sorted_is_ordered(row_views(rows@));
        assert forall|id: u32| #[trigger]
            rows_with_id(row_views(out@), id) == rows_with_id(row_views(rows@), id) by {
            lemma_sorted_is_stable(row_views(rows@), id);
        }
    }
    out
}

/// Joins the tasks of the queried quest with the completion records of the
/// queried address, in one pass over the records and one over the tasks.
pub fn join_tasks(tasks: &Vec<Task>, records: &Vec<CompletionRecord>, query: &GetTasksQuery) -> (out:
    Vec<UserTask>)
    ensures
        row_views(out@) == joined(
            task_views(tasks@),
            completion_views(records@),
            query.quest_id,
            query.addr@,
        ),
{
    broadcast use vstd::std_specs::hash::group_hash_axioms;

    let ghost all = completion_views(records@);
    let mut done: HashSet<u32> = HashSet::new();
    let mut k: usize = 0;
    while k < records.len()
        invariant
            0 <= k <= records@.len(),
            all == completion_views(records@),
            forall|id: u32|
                done@.contains(id) <==> has_completion(all.take(k as int), id, query.addr@),
        decreases records@.len() - k,
    {
        let ghost seen = all.take(k as int);
        let ghost grown = all.take(k + 1);
        let ghost before = done@;
        let hit = records[k].address == query.addr;
        if hit {
            done.insert(records[k].task_id);
        }
        proof {
            assert(grown.drop_last() =~= seen);
            assert(grown.last() == records@[k as int]@);
            assert forall|id: u32|
                done@.contains(id) <==> has_completion(grown, id, query.addr@) by {
                if has_completion(seen, id, query.addr@) {
                    let w = choose|w: int|
                        0 <= w < seen.len() && (#[trigger] seen[w]).task_id == id && seen[w].address
                            == query.addr@;
                    assert(grown[w] == seen[w]);
                }
                if has_completion(grown, id, query.addr@) {
                    let w = choose|w: int|
                        0 <= w < grown.len() && (#[trigger] grown[w]).task_id == id
                            && grown[w].address == query.addr@;
                    if w < k {
                        assert(seen[w] == grown[w]);
                    }
                }
                if hit && id == records@[k as int].task_id {
                    assert(grown[k as int].task_id == id);
                }
            }
        }
        k = k + 1;
    }
    assert(all.take(k as int) =~= all);

    let ghost defs = task_views(tasks@);
    let mut out: Vec<UserTask> = Vec::new();
    let mut i: usize = 0;
    assert(row_views(out@) =~= Seq::empty());
    while i < tasks.len()
        invariant
            0 <= i <= tasks@.len(),
            defs == task_views(tasks@),
            forall|id: u32| done@.contains(id) <==> has_completion(all, id, query.addr@),
            row_views(out@) == joined(defs.take(i as int), all, query.quest_id, query.addr@),
        decreases tasks@.len() - i,
    {
        let ghost grown = defs.take(i + 1);
        proof {
            assert(grown.drop_last() =~= defs.take(i as int));
            assert(grown.last() == tasks@[i as int]@);
        }
        if tasks[i].quest_id == query.quest_id {
            let completed = done.contains(&tasks[i].id);
            let row = UserTask::of_task(&tasks[i], completed);
            assert(row_views(out@.push(row)) =~= row_views(out@).push(row@));
            out.push(row);
        }
        i = i + 1;
    }
    assert(defs.take(i as int) =~= defs);
    out
}

/// What a listing request is answered with.
#[derive(Debug)]
pub enum TaskListing {
    /// The tasks of the quest, ascending by id; never empty.
    Tasks(Vec<UserTask>),
    /// The quest has no tasks.
    NoTasks(QueryError),
    /// The store could not be queried.
    Failed(QueryError),
}

/// The mathematical value of a [`TaskListing`].
pub enum ListingView {
    Tasks(Seq<UserTaskView>),
    NoTasks(Seq<char>),
    Failed(Seq<char>),
}

impl View for TaskListing {
    type V = ListingView;

    open spec fn view(&self) -> ListingView {
        match self {
            TaskListing::Tasks(rows) => ListingView::Tasks(row_views(rows@)),
            TaskListing::NoTasks(e) => ListingView::NoTasks(e.error@),
            TaskListing::Failed(e) => ListingView::Failed(e.error@),
        }
    }
}

/// The message for a quest without tasks.
pub open spec fn no_tasks_text() -> Seq<char> {
    "No tasks found for this quest_id"@
}

/// The message for a store that could not be queried.
pub open spec fn query_failed_text() -> Seq<char> {
    "Error querying tasks"@
}

/// The listing that answers with `rows`: the rows ascending by id, or the
/// no-tasks message where there is none.
pub open spec fn listing_of(rows: Seq<UserTaskView>) -> ListingView {
    if rows.len() == 0 {
        ListingView::NoTasks(no_tasks_text())
    } else {
        ListingView::Tasks(sorted_by_id(rows))
    }
}

/// Whether some task belongs to quest `quest_id`.
pub open spec fn quest_has_tasks(tasks: Seq<TaskView>, quest_id: u32) -> bool {
    exists|i: int| 0 <= i < tasks.len() && (#[trigger] tasks[i]).quest_id == quest_id
}

/// The join lists a task exactly when the quest has one: it is empty if and
/// only if no task belongs to the quest.
pub proof fn lemma_joined_empty(
    tasks: Seq<TaskView>,
    records: Seq<CompletionView>,
    quest_id: u32,
    address: Seq<char>,
)
    ensures
        joined(tasks, records, quest_id, address).len() == 0 <==> !quest_has_tasks(tasks, quest_id),
    decreases tasks.len(),
{
    if tasks.len() > 0 {
        let front = tasks.drop_last();
        lemma_joined_empty(front, records, quest_id, address);
        if quest_has_tasks(front, quest_id) {
            let w = choose|w: int| 0 <= w < front.len() && (#[trigger] front[w]).quest_id == quest_id;
            assert(tasks[w] == front[w]);
        }
        if quest_has_tasks(tasks, quest_id) && tasks.last().quest_id != quest_id {
            let w = choose|w: int| 0 <= w < tasks.len() && (#[trigger] tasks[w]).quest_id == quest_id;
            assert(front[w] == tasks[w]);
        }
        if tasks.last().quest_id == quest_id {
            assert(tasks[tasks.len() - 1].quest_id == quest_id);
        }
    }
}

/// Every listed row belongs to the quest asked for.
pub proof fn lemma_joined_rows(
    tasks: Seq<TaskView>,
    records: Seq<CompletionView>,
    quest_id: u32,
    address: Seq<char>,
)
    ensures
        forall|k: int|
            0 <= k < joined(tasks, records, quest_id, address).len() ==> {
                let row = #[trigger] joined(tasks, records, quest_id, address)[k];
                &&& row.quest_id == quest_id
                &&& row.completed == has_completion(records, row.id, address)
                &&& exists|i: int| 0 <= i < tasks.len() && row == row_of(#[trigger] tasks[i], row.completed)
            },
    decreases tasks.len(),
{
    if tasks.len() > 0 {
        let front = tasks.drop_last();
        lemma_joined_rows(front, records, quest_id, address);
        let all = joined(tasks, records, quest_id, address);
        let rest = joined(front, records, quest_id, address);
        assert forall|k: int| 0 <= k < all.len() implies {
            let row = #[trigger] all[k];
            &&& row.quest_id == quest_id
            &&& row.completed == has_completion(records, row.id, address)
            &&& exists|i: int| 0 <= i < tasks.len() && row == row_of(#[trigger] tasks[i], row.completed)
        } by {
            let row = all[k];
            if k < rest.len() {
                assert(row == rest[k]);
                let i = choose|i: int| 0 <= i < front.len() && row == row_of(#[trigger] front[i], row.completed);
                assert(tasks[i] == front[i]);
            } else {
                assert(row == row_of(tasks[tasks.len() - 1], row.completed));
            }
        }
    }
}

/// Answers with the rows that the store returned for a quest: ascending by
/// id, or the no-tasks message where the store returned none.
pub fn list_rows(rows: &Vec<UserTask>) -> (out: TaskListing)
    ensures
        out@ == listing_of(row_views(rows@)),
        out is NoTasks <==> rows@.len() == 0,
        out matches TaskListing::Tasks(sorted) ==> ordered_by_id(row_views(sorted@))
            && row_views(sorted@).to_multiset() == row_views(rows@).to_multiset(),
{
    if rows.len() == 0 {
        TaskListing::NoTasks(QueryError { error: "No tasks found for this quest_id".to_owned() })
    } else {
        TaskListing::Tasks(sort_by_id(rows))
    }
}

/// The answer to a listing request whose query failed in the store.
pub fn query_failed() -> (out: TaskListing)
    ensures
        out@ == ListingView::Failed(query_failed_text()),
{
    TaskListing::Failed(QueryError { error: "Error querying tasks".to_owned() })
}

/// Lists the tasks of the queried quest with the completion state of the
/// queried address. A quest without tasks gets the no-tasks answer, never
/// the failure answer and never a list.
pub fn aggregate(tasks: &Vec<Task>, records: &Vec<CompletionRecord>, query: &GetTasksQuery) -> (out:
    TaskListing)
    ensures
        out@ == listing_of(
            joined(task_views(tasks@), completion_views(records@), query.quest_id, query.addr@),
        ),
        out is NoTasks <==> !quest_has_tasks(task_views(tasks@), query.quest_id),
        !(out is Failed),
        out matches TaskListing::Tasks(sorted) ==> ordered_by_id(row_views(sorted@)),
{
    proof {
        lemma_joined_empty(
            task_views(tasks@),
            completion_views(records@),
            query.quest_id,
            query.addr@,
        );
    }
    let rows = join_tasks(tasks, records, query);
    list_rows(&rows)
}

impl TaskListing {
    /// The HTTP status that the answer is sent with: 500 for a failed query,
    /// 200 otherwise.
    pub fn status(&self) -> (code: u16)
        ensures
            code == (if self is Failed { 500u16 } else { 200u16 }),
    {
        match self {
            TaskListing::Failed(_) => 500,
            _ => 200,
        }
    }
}

} // verus!
