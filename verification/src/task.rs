//! Task definitions.

use vstd::prelude::*;

verus! {

/// One task definition of a quest.
#[derive(Debug)]
pub struct Task {
    pub id: u32,
    pub quest_id: u32,
    pub name: String,
    pub desc: String,
    pub cta: String,
    pub href: String,
    pub verify_endpoint: String,
    pub verify_endpoint_type: String,
    pub verify_redirect: Option<String>,
    pub task_type: Option<String>,
    pub discord_guild_id: Option<String>,
    pub quiz_name: Option<String>,
}

/// The mathematical value of a [`Task`]: every string as its characters.
pub struct TaskView {
    pub id: u32,
    pub quest_id: u32,
    pub name: Seq<char>,
    pub desc: Seq<char>,
    pub cta: Seq<char>,
    pub href: Seq<char>,
    pub verify_endpoint: Seq<char>,
    pub verify_endpoint_type: Seq<char>,
    pub verify_redirect: Option<Seq<char>>,
    pub task_type: Option<Seq<char>>,
    pub discord_guild_id: Option<Seq<char>>,
    pub quiz_name: Option<Seq<char>>,
}

/// The characters of an optional string.
pub open spec fn text_of(s: Option<String>) -> Option<Seq<char>> {
    match s {
        Some(t) => Some(t@),
        None => None,
    }
}

impl View for Task {
    type V = TaskView;

    open spec fn view(&self) -> TaskView {
        TaskView {
            id: self.id,
            quest_id: self.quest_id,
            name: self.name@,
            desc: self.desc@,
            cta: self.cta@,
            href: self.href@,
            verify_endpoint: self.verify_endpoint@,
            verify_endpoint_type: self.verify_endpoint_type@,
            verify_redirect: text_of(self.verify_redirect),
            task_type: text_of(self.task_type),
            discord_guild_id: text_of(self.discord_guild_id),
            quiz_name: text_of(self.quiz_name),
        }
    }
}

/// The values of a sequence of tasks, in the same order.
pub open spec fn task_views(tasks: Seq<Task>) -> Seq<TaskView> {
    tasks.map_values(|t: Task| t@)
}

/// An independent copy of an optional string.
pub fn copy_text(s: &Option<String>) -> (out: Option<String>)
    ensures
        text_of(out) == text_of(*s),
{
    match s {
        Some(t) => Some(t.clone()),
        None => None,
    }
}

impl Task {
    /// An independent copy with the same value.
    pub fn duplicate(&self) -> (out: Task)
        ensures
            out@ == self@,
    {
        Task {
            id: self.id,
            quest_id: self.quest_id,
            name: self.name.clone(),
            desc: self.desc.clone(),
            cta: self.cta.clone(),
            href: self.href.clone(),
            verify_endpoint: self.verify_endpoint.clone(),
            verify_endpoint_type: self.verify_endpoint_type.clone(),
            verify_redirect: copy_text(&self.verify_redirect),
            task_type: copy_text(&self.task_type),
            discord_guild_id: copy_text(&self.discord_guild_id),
            quiz_name: copy_text(&self.quiz_name),
        }
    }
}

/// A partial update of the task `id`: a field that is `None` is left as it
/// is stored, a field that is `Some` replaces the stored value.
#[derive(Debug)]
pub struct TaskPatch {
    pub id: u32,
    pub name: Option<String>,
    pub desc: Option<String>,
    pub cta: Option<String>,
    pub verify_endpoint: Option<String>,
    pub verify_endpoint_type: Option<String>,
    pub verify_redirect: Option<String>,
    pub href: Option<String>,
}

/// The mathematical value of a [`TaskPatch`].
pub struct PatchView {
    pub id: u32,
    pub name: Option<Seq<char>>,
    pub desc: Option<Seq<char>>,
    pub cta: Option<Seq<char>>,
    pub verify_endpoint: Option<Seq<char>>,
    pub verify_endpoint_type: Option<Seq<char>>,
    pub verify_redirect: Option<Seq<char>>,
    pub href: Option<Seq<char>>,
}

impl View for TaskPatch {
    type V = PatchView;

    open spec fn view(&self) -> PatchView {
        PatchView {
            id: self.id,
            name: text_of(self.name),
            desc: text_of(self.desc),
            cta: text_of(self.cta),
            verify_endpoint: text_of(self.verify_endpoint),
            verify_endpoint_type: text_of(self.verify_endpoint_type),
            verify_redirect: text_of(self.verify_redirect),
            href: text_of(self.href),
        }
    }
}

/// The new value where the patch gives one, the stored value otherwise.
pub open spec fn pick(new: Option<Seq<char>>, stored: Seq<char>) -> Seq<char> {
    match new {
        Some(text) => text,
        None => stored,
    }
}

/// `task` after `patch`: the fields that the patch gives are replaced, the
/// id and every other field stay.
pub open spec fn patched(task: TaskView, patch: PatchView) -> TaskView {
    TaskView {
        name: pick(patch.name, task.name),
        desc: pick(patch.desc, task.desc),
        cta: pick(patch.cta, task.cta),
        href: pick(patch.href, task.href),
        verify_endpoint: pick(patch.verify_endpoint, task.verify_endpoint),
        verify_endpoint_type: pick(patch.verify_endpoint_type, task.verify_endpoint_type),
        verify_redirect: match patch.verify_redirect {
            Some(text) => Some(text),
            None => task.verify_redirect,
        },
        ..task
    }
}

/// The assignment of `value` to the field `field`, if there is a value.
pub open spec fn assignment(field: Seq<char>, value: Option<Seq<char>>) -> Seq<(Seq<char>, Seq<char>)> {
    match value {
        Some(text) => seq![(field, text)],
        None => Seq::empty(),
    }
}

/// The field assignments that `patch` asks of the store, as pairs of field
/// name and new value, in the order in which they are applied.
pub open spec fn assignments_of(patch: PatchView) -> Seq<(Seq<char>, Seq<char>)> {
    assignment("name"@, patch.name) + assignment("desc"@, patch.desc) + assignment(
        "href"@,
        patch.href,
    ) + assignment("cta"@, patch.cta) + assignment("verify_redirect"@, patch.verify_redirect)
        + assignment("verify_endpoint"@, patch.verify_endpoint) + assignment(
        "verify_endpoint_type"@,
        patch.verify_endpoint_type,
    )
}

/// The values of a list of assignments.
pub open spec fn assignment_views(pairs: Seq<(String, String)>) -> Seq<(Seq<char>, Seq<char>)> {
    pairs.map_values(|e: (String, String)| (e.0@, e.1@))
}

/// Appends the assignment of `value` to `field`, if there is a value.
fn push_assignment(out: &mut Vec<(String, String)>, field: &str, value: &Option<String>)
    ensures
        assignment_views(final(out)@) == assignment_views(old(out)@) + assignment(
            field@,
            text_of(*value),
        ),
{
    match value {
        Some(text) => {
            let pair = (field.to_owned(), text.clone());
            assert(assignment_views(out@.push(pair)) =~= assignment_views(out@) + seq![
                (field@, text@),
            ]);
            out.push(pair);
        },
        None => {
            assert(assignment_views(out@) =~= assignment_views(out@) + Seq::empty());
        },
    }
}

impl TaskPatch {
    /// The patch of task `id` that changes nothing.
    pub fn new(id: u32) -> (out: TaskPatch)
        ensures
            out@ == (PatchView {
                id,
                name: None,
                desc: None,
                cta: None,
                verify_endpoint: None,
                verify_endpoint_type: None,
                verify_redirect: None,
                href: None,
            }),
    {
        TaskPatch {
            id,
            name: None,
            desc: None,
            cta: None,
            verify_endpoint: None,
            verify_endpoint_type: None,
            verify_redirect: None,
            href: None,
        }
    }

    /// The field assignments to send to the store: one pair of field name and
    /// new value for each field that the patch gives, none for the others.
    pub fn assignments(&self) -> (out: Vec<(String, String)>)
        ensures
            assignment_views(out@) == assignments_of(self@),
    {
        let mut out: Vec<(String, String)> = Vec::new();
        assert(assignment_views(out@) =~= Seq::empty());
        push_assignment(&mut out, "name", &self.name);
        push_assignment(&mut out, "desc", &self.desc);
        push_assignment(&mut out, "href", &self.href);
        push_assignment(&mut out, "cta", &self.cta);
        push_assignment(&mut out, "verify_redirect", &self.verify_redirect);
        push_assignment(&mut out, "verify_endpoint", &self.verify_endpoint);
        push_assignment(&mut out, "verify_endpoint_type", &self.verify_endpoint_type);
        assert(assignment_views(out@) =~= assignments_of(self@));
        out
    }
}

/// Replaces `stored` by a copy of the new text, if there is one.
fn replace_text(stored: &mut String, new: &Option<String>)
    ensures
        final(stored)@ == pick(text_of(*new), old(stored)@),
{
    match new {
        Some(text) => {
            *stored = text.clone();
        },
        None => {},
    }
}

impl Task {
    /// Applies a partial update: the fields that `patch` gives are replaced,
    /// the others and the id are left untouched.
    pub fn apply(&mut self, patch: &TaskPatch)
        ensures
            final(self)@ == patched(old(self)@, patch@),
    {
        replace_text(&mut self.name, &patch.name);
        replace_text(&mut self.desc, &patch.desc);
        replace_text(&mut self.cta, &patch.cta);
        replace_text(&mut self.href, &patch.href);
        replace_text(&mut self.verify_endpoint, &patch.verify_endpoint);
        replace_text(&mut self.verify_endpoint_type, &patch.verify_endpoint_type);
        match &patch.verify_redirect {
            Some(text) => {
                self.verify_redirect = Some(text.clone());
            },
            None => {},
        }
    }
}

/// The fields of a new retweet task.
#[derive(Debug)]
pub struct CreateTwitterRw {
    pub name: String,
    pub desc: String,
    pub post_link: String,
    pub quest_id: u32,
}

/// The mathematical value of a [`CreateTwitterRw`].
pub struct TwitterRwView {
    pub name: Seq<char>,
    pub desc: Seq<char>,
    pub post_link: Seq<char>,
    pub quest_id: u32,
}

impl View for CreateTwitterRw {
    type V = TwitterRwView;

    open spec fn view(&self) -> TwitterRwView {
        TwitterRwView {
            name: self.name@,
            desc: self.desc@,
            post_link: self.post_link@,
            quest_id: self.quest_id,
        }
    }
}

/// The retweet task with the given id: it links to the post, is confirmed by
/// redirect to the post, and leaves the fields of other task types empty.
pub open spec fn twitter_rw_view(body: TwitterRwView, id: u32) -> TaskView {
    TaskView {
        id,
        quest_id: body.quest_id,
        name: body.name,
        desc: body.desc,
        cta: "Retweet"@,
        href: body.post_link,
        verify_endpoint: "quests/verify_twitter_rw"@,
        verify_endpoint_type: "default"@,
        verify_redirect: Some(body.post_link),
        task_type: Some("twitter_rw"@),
        discord_guild_id: None,
        quiz_name: None,
    }
}

/// Builds the retweet task that `body` describes, under the id `id`.
pub fn twitter_rw_task(body: &CreateTwitterRw, id: u32) -> (out: Task)
    ensures
        out@ == twitter_rw_view(body@, id),
{
    Task {
        id,
        quest_id: body.quest_id,
        name: body.name.clone(),
        desc: body.desc.clone(),
        cta: "Retweet".to_owned(),
        href: body.post_link.clone(),
        verify_endpoint: "quests/verify_twitter_rw".to_owned(),
        verify_endpoint_type: "default".to_owned(),
        verify_redirect: Some(body.post_link.clone()),
        task_type: Some("twitter_rw".to_owned()),
        discord_guild_id: None,
        quiz_name: None,
    }
}

/// The id of the next task, given the greatest id in use: one more than it,
/// or 1 where no task exists yet.
pub open spec fn id_after(last: Option<u32>) -> int {
    match last {
        Some(id) => id + 1,
        None => 1,
    }
}

/// The id to give the next task, given the greatest id in use; `None` where
/// every id is taken.
pub fn next_id_after(last: Option<u32>) -> (next: Option<u32>)
    ensures
        id_after(last) <= u32::MAX ==> next == Some(id_after(last) as u32),
        id_after(last) > u32::MAX ==> next is None,
{
    match last {
        Some(id) => id.checked_add(1),
        None => Some(1),
    }
}

} // verus!
