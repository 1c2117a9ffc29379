//! Tasks: creation, listing, lookup, status changes, the status audit trail and
//! merge-patch updates.

use vstd::prelude::*;
use crate::error::CmdResult;
use crate::outside::{fresh_uuid, now_millis};
use crate::state::{
    constraint, copy_opt, has_task, lemma_distinct_push, lemma_distinct_remove_push,
    lemma_rising_later, lemma_rising_push, lemma_rising_remove_push, next_stamp, not_found,
    stamp_after, task_ids, task_stamps, idea_stamps, doc_stamps, text, validation,
    AppState, StatusReason, Table, Task, version_stamps, lemma_task_push, lemma_task_replace,
};
pub use crate::state::TaskStatus;

verus! {

impl TaskStatus {
    /// The stored name of the status.
    pub open spec fn name(&self) -> Seq<char> {
        match self {
            TaskStatus::Todo => "todo"@,
            TaskStatus::Started => "started"@,
            TaskStatus::InProgress => "in-progress"@,
            TaskStatus::StageComplete => "stage-complete"@,
            TaskStatus::Completed => "completed"@,
            TaskStatus::Dropped => "dropped"@,
        }
    }

    /// The status with the given stored name; none for an unknown name.
    pub fn from_name(s: &String) -> (r: Option<TaskStatus>)
        ensures
            match r {
                Some(st) => st.name() == s@,
                None => forall|st: TaskStatus| #[trigger] st.name() != s@,
            },
    {
        if *s == text("todo") {
            Some(TaskStatus::Todo)
        } else if *s == text("started") {
            Some(TaskStatus::Started)
        } else if *s == text("in-progress") {
            Some(TaskStatus::InProgress)
        } else if *s == text("stage-complete") {
            Some(TaskStatus::StageComplete)
        } else if *s == text("completed") {
            Some(TaskStatus::Completed)
        } else if *s == text("dropped") {
            Some(TaskStatus::Dropped)
        } else {
            None
        }
    }

    /// The stored name of the status.
    pub fn to_string(&self) -> (r: String)
        ensures
            r@ == self.name(),
    {
        match self {
            TaskStatus::Todo => text("todo"),
            TaskStatus::Started => text("started"),
            TaskStatus::InProgress => text("in-progress"),
            TaskStatus::StageComplete => text("stage-complete"),
            TaskStatus::Completed => text("completed"),
            TaskStatus::Dropped => text("dropped"),
        }
    }
}

/// What a caller gives to create a task.
pub struct TaskInput {
    pub name: String,
    pub category: String,
    pub short_summary: Option<String>,
    pub description: Option<String>,
    pub status: TaskStatus,
    pub current_stage: Option<String>,
    pub start_at: Option<i64>,
    pub end_est_at: Option<i64>,
}

/// A task as listed.
pub struct TaskRow {
    pub id: String,
    pub name: String,
    pub category: String,
    pub status: TaskStatus,
    pub current_stage: Option<String>,
    pub start_at: Option<i64>,
    pub end_est_at: Option<i64>,
    pub updated_at: i64,
}

/// A task in full.
pub struct TaskDetail {
    pub id: String,
    pub name: String,
    pub category: String,
    pub short_summary: Option<String>,
    pub description: Option<String>,
    pub status: TaskStatus,
    pub current_stage: Option<String>,
    pub start_at: Option<i64>,
    pub end_est_at: Option<i64>,
    pub created_at: i64,
    pub updated_at: i64,
}

/// An audit entry to record for a task.
pub struct ReasonInput {
    pub task_id: String,
    pub status: TaskStatus,
    pub note: String,
}

/// A partial update: each field that is present replaces the stored one.
pub struct UpdateTaskInput {
    pub id: String,
    pub name: Option<String>,
    pub category: Option<String>,
    pub short_summary: Option<String>,
    pub description: Option<String>,
    pub status: Option<TaskStatus>,
    pub current_stage: Option<String>,
    pub start_at: Option<i64>,
    pub end_est_at: Option<i64>,
}

/// The value of a patch field where present, else the current one.
pub open spec fn pick<T>(patch: Option<T>, cur: T) -> T {
    match patch {
        Some(v) => v,
        None => cur,
    }
}

/// The value of an optional patch field where present, else the current one.
pub open spec fn pick_opt<T>(patch: Option<T>, cur: Option<T>) -> Option<T> {
    match patch {
        Some(v) => Some(v),
        None => cur,
    }
}

/// The task that `add_task` stores.
pub open spec fn new_task(input: TaskInput, id: String, stamp: i64) -> Task {
    Task {
        id,
        name: input.name,
        category: input.category,
        short_summary: input.short_summary,
        description: input.description,
        status: input.status,
        current_stage: input.current_stage,
        start_at: input.start_at,
        end_est_at: input.end_est_at,
        created_at: stamp,
        updated_at: stamp,
        project_id: None,
        workspace_id: None,
        origin_idea_id: None,
    }
}

/// The task after a patch at time stamp `stamp`.
pub open spec fn patched_task(cur: Task, p: UpdateTaskInput, stamp: i64) -> Task {
    Task {
        id: cur.id,
        name: pick(p.name, cur.name),
        category: pick(p.category, cur.category),
        short_summary: pick_opt(p.short_summary, cur.short_summary),
        description: pick_opt(p.description, cur.description),
        status: pick(p.status, cur.status),
        current_stage: pick_opt(p.current_stage, cur.current_stage),
        start_at: pick_opt(p.start_at, cur.start_at),
        end_est_at: pick_opt(p.end_est_at, cur.end_est_at),
        created_at: cur.created_at,
        updated_at: stamp,
        project_id: cur.project_id,
        workspace_id: cur.workspace_id,
        origin_idea_id: cur.origin_idea_id,
    }
}

/// The task with a new status at time stamp `stamp`.
pub open spec fn restatused_task(cur: Task, status: TaskStatus, stamp: i64) -> Task {
    Task { status, updated_at: stamp, ..cur }
}

pub open spec fn task_row(t: Task) -> TaskRow {
    TaskRow {
        id: t.id,
        name: t.name,
        category: t.category,
        status: t.status,
        current_stage: t.current_stage,
        start_at: t.start_at,
        end_est_at: t.end_est_at,
        updated_at: t.updated_at,
    }
}

pub open spec fn task_detail(t: Task) -> TaskDetail {
    TaskDetail {
        id: t.id,
        name: t.name,
        category: t.category,
        short_summary: t.short_summary,
        description: t.description,
        status: t.status,
        current_stage: t.current_stage,
        start_at: t.start_at,
        end_est_at: t.end_est_at,
        created_at: t.created_at,
        updated_at: t.updated_at,
    }
}

/// The position of the task with the given id.
pub fn find_task(tasks: &Vec<Task>, id: &String) -> (r: Option<usize>)
    ensures
        match r {
            Some(i) => i < tasks@.len() && tasks@[i as int].id@ == id@,
            None => !has_task(tasks@, id@),
        },
{
    let mut i: usize = 0;
    while i < tasks.len()
        invariant
            i <= tasks@.len(),
            forall|k: int| 0 <= k < i ==> tasks@[k].id@ != id@,
        decreases tasks@.len() - i,
    {
        if tasks[i].id == *id {
            return Some(i);
        }
        i = i + 1;
    }
    None
}

/// Stores a new task with the given id at time `now`.
pub fn add_task_at(state: &mut AppState, input: TaskInput, id: String, now: i64) -> (r: CmdResult<
    String,
>)
    requires
        old(state).wf(),
    ensures
        final(state).wf(),
        match r {
            Ok(rid) => {
                &&& stamp_after(old(state).clock, now) == Some(final(state).clock)
                &&& !has_task(old(state).tasks@, id@)
                &&& rid == id
                &&& final(state).tasks@ == old(state).tasks@.push(
                    new_task(input, id, final(state).clock),
                )
                &&& old(state).keeps(&*final(state), set![Table::Tasks])
            },
            Err(e) => {
                &&& old(state).same(&*final(state))
                &&& stamp_after(old(state).clock, now) is None ==> e is Validation
                &&& stamp_after(old(state).clock, now) is Some ==> e is Constraint && has_task(
                    old(state).tasks@,
                    id@,
                )
            },
        },
{
    let stamp = match next_stamp(state.clock, now) {
        Some(s) => s,
        None => return Err(validation("the clock has run out of time stamps")),
    };
    match find_task(&state.tasks, &id) {
        Some(_) => return Err(constraint("a task with this id exists")),
        None => {},
    }
    let rid = id.clone();
    let t = Task {
        id,
        name: input.name,
        category: input.category,
        short_summary: input.short_summary,
        description: input.description,
        status: input.status,
        current_stage: input.current_stage,
        start_at: input.start_at,
        end_est_at: input.end_est_at,
        created_at: stamp,
        updated_at: stamp,
        project_id: None,
        workspace_id: None,
        origin_idea_id: None,
    };
    proof {
        lemma_rising_push(task_stamps(state.tasks@), stamp, state.clock);
        lemma_distinct_push(task_ids(state.tasks@), t.id@);
        assert(task_stamps(state.tasks@.push(t)) =~= task_stamps(state.tasks@).push(stamp));
        assert(task_ids(state.tasks@.push(t)) =~= task_ids(state.tasks@).push(t.id@));
        lemma_rising_later(idea_stamps(state.ideas@), state.clock, stamp);
        lemma_rising_later(doc_stamps(state.docs@), state.clock, stamp);
        lemma_rising_later(version_stamps(state.doc_versions@), state.clock, stamp);
        lemma_task_push(state.tasks@, t);
    }
    state.tasks.push(t);
    state.clock = stamp;
    Ok(rid)
}

/// Creates a task with a fresh id, stamped now; returns its id.
pub fn add_task(state: &mut AppState, input: TaskInput) -> (r: CmdResult<String>)
    requires
        old(state).wf(),
    ensures
        final(state).wf(),
        match r {
            Ok(id) => {
                &&& final(state).clock > old(state).clock
                &&& final(state).tasks@ == old(state).tasks@.push(
                    new_task(input, id, final(state).clock),
                )
                &&& old(state).keeps(&*final(state), set![Table::Tasks])
            },
            Err(e) => {
                &&& old(state).same(&*final(state))
                &&& e is Validation && old(state).clock == i64::MAX || e is Constraint
                    && old(state).tasks@.len() > 0
            },
        },
{
    let id = fresh_uuid();
    let now = now_millis();
    add_task_at(state, input, id, now)
}

/// Every task, most recently updated first.
pub fn list_tasks(state: &AppState) -> (r: Vec<TaskRow>)
    requires
        state.wf(),
    ensures
        r@.len() == state.tasks@.len(),
        forall|k: int|
            0 <= k < r@.len() ==> r@[k] == task_row(state.tasks@[state.tasks@.len() - 1 - k]),
        forall|a: int, b: int| 0 <= a < b < r@.len() ==> r@[a].updated_at > r@[b].updated_at,
{
    let n = state.tasks.len();
    let mut out: Vec<TaskRow> = Vec::new();
    let mut k: usize = 0;
    while k < n
        invariant
            n == state.tasks@.len(),
            k <= n,
            out@.len() == k,
            forall|j: int| 0 <= j < k ==> out@[j] == task_row(state.tasks@[n - 1 - j]),
        decreases n - k,
    {
        let t = &state.tasks[n - 1 - k];
        out.push(
            TaskRow {
                id: t.id.clone(),
                name: t.name.clone(),
                category: t.category.clone(),
                status: t.status,
                current_stage: copy_opt(&t.current_stage),
                start_at: t.start_at,
                end_est_at: t.end_est_at,
                updated_at: t.updated_at,
            },
        );
        k = k + 1;
    }
    proof {
        assert forall|a: int, b: int| 0 <= a < b < out@.len() implies out@[a].updated_at
            > out@[b].updated_at by {
            assert(task_stamps(state.tasks@)[n - 1 - a] == state.tasks@[n - 1 - a].updated_at);
            assert(task_stamps(state.tasks@)[n - 1 - b] == state.tasks@[n - 1 - b].updated_at);
        }
    }
    out
}

/// The task with the given id.
pub fn get_task(state: &AppState, id: String) -> (r: CmdResult<TaskDetail>)
    requires
        state.wf(),
    ensures
        match r {
            Ok(d) => exists|i: int|
                0 <= i < state.tasks@.len() && state.tasks@[i].id@ == id@ && d == task_detail(
                    #[trigger] state.tasks@[i],
                ),
            Err(e) => e is NotFound && !has_task(state.tasks@, id@),
        },
{
    match find_task(&state.tasks, &id) {
        None => Err(not_found("task not found")),
        Some(i) => {
            let t = &state.tasks[i];
            Ok(
                TaskDetail {
                    id: t.id.clone(),
                    name: t.name.clone(),
                    category: t.category.clone(),
                    short_summary: copy_opt(&t.short_summary),
                    description: copy_opt(&t.description),
                    status: t.status,
                    current_stage: copy_opt(&t.current_stage),
                    start_at: t.start_at,
                    end_est_at: t.end_est_at,
                    created_at: t.created_at,
                    updated_at: t.updated_at,
                },
            )
        },
    }
}


/// In a well-formed store the task at `i` is the only one with its id, and its
/// stamps are at most the clock.
proof fn lemma_task_at(state: &AppState, i: int)
    requires
        state.wf(),
        0 <= i < state.tasks@.len(),
    ensures
        state.tasks@[i].created_at <= state.tasks@[i].updated_at <= state.clock,
        forall|j: int|
            0 <= j < state.tasks@.len() && (#[trigger] state.tasks@[j]).id@
                == state.tasks@[i].id@ ==> j == i,
{
    assert(task_stamps(state.tasks@)[i] == state.tasks@[i].updated_at);
    assert forall|j: int|
        0 <= j < state.tasks@.len() && (#[trigger] state.tasks@[j]).id@
            == state.tasks@[i].id@ implies j == i by {
        assert(task_ids(state.tasks@)[i] == state.tasks@[i].id@);
        assert(task_ids(state.tasks@)[j] == state.tasks@[j].id@);
    }
}

/// A copy of a task, equal to it.
fn clone_task(t: &Task) -> (r: Task)
    ensures
        r == *t,
{
    Task {
        id: t.id.clone(),
        name: t.name.clone(),
        category: t.category.clone(),
        short_summary: copy_opt(&t.short_summary),
        description: copy_opt(&t.description),
        status: t.status,
        current_stage: copy_opt(&t.current_stage),
        start_at: t.start_at,
        end_est_at: t.end_est_at,
        created_at: t.created_at,
        updated_at: t.updated_at,
        project_id: copy_opt(&t.project_id),
        workspace_id: copy_opt(&t.workspace_id),
        origin_idea_id: copy_opt(&t.origin_idea_id),
    }
}

/// Puts `t` in place of the task at `i`, moving it to the end, as the most
/// recently updated one, and advances the clock to its stamp.
fn replace_task(state: &mut AppState, i: usize, t: Task)
    requires
        old(state).wf(),
        i < old(state).tasks@.len(),
        t.id@ == old(state).tasks@[i as int].id@,
        t.updated_at > old(state).clock,
        t.created_at <= t.updated_at,
    ensures
        final(state).wf(),
        final(state).tasks@ == old(state).tasks@.remove(i as int).push(t),
        final(state).clock == t.updated_at,
        old(state).keeps(&*final(state), set![Table::Tasks]),
{
    let ghost s0 = state.tasks@;
    let stamp = t.updated_at;
    proof {
        lemma_rising_remove_push(task_stamps(s0), i as int, stamp, state.clock);
        lemma_distinct_remove_push(task_ids(s0), i as int, t.id@);
        assert(task_stamps(s0.remove(i as int).push(t)) =~= task_stamps(s0).remove(i as int).push(
            stamp,
        ));
        assert(task_ids(s0.remove(i as int).push(t)) =~= task_ids(s0).remove(i as int).push(t.id@));
        lemma_rising_later(idea_stamps(state.ideas@), state.clock, stamp);
        lemma_rising_later(doc_stamps(state.docs@), state.clock, stamp);
        lemma_rising_later(version_stamps(state.doc_versions@), state.clock, stamp);
        lemma_task_replace(s0, i as int, t);
    }
    state.tasks.remove(i);
    state.tasks.push(t);
    state.clock = stamp;
    proof {
        let s1 = state.tasks@;
        assert forall|k: int| 0 <= k < s1.len() implies (#[trigger] s1[k]).created_at
            <= s1[k].updated_at by {
            if k < s1.len() - 1 {
                let k0 = if k < i { k } else { k + 1 };
                assert(s1[k] == s0[k0]);
            }
        }
    }
}

/// Sets the status of the task with the given id at time `now`. An unknown id
/// changes nothing and is no failure.
pub fn set_task_status_at(state: &mut AppState, id: String, status: TaskStatus, now: i64) -> (r:
    CmdResult<()>)
    requires
        old(state).wf(),
    ensures
        final(state).wf(),
        !has_task(old(state).tasks@, id@) ==> r is Ok && old(state).same(&*final(state)),
        has_task(old(state).tasks@, id@) ==> match r {
            Ok(_) => {
                &&& stamp_after(old(state).clock, now) == Some(final(state).clock)
                &&& forall|i: int|
                    0 <= i < old(state).tasks@.len() && (#[trigger] old(state).tasks@[i]).id@
                        == id@ ==> final(state).tasks@ == old(state).tasks@.remove(i).push(
                        restatused_task(old(state).tasks@[i], status, final(state).clock),
                    )
                &&& old(state).keeps(&*final(state), set![Table::Tasks])
            },
            Err(e) => e is Validation && stamp_after(old(state).clock, now) is None && old(
                state,
            ).same(&*final(state)),
        },
{
    let i = match find_task(&state.tasks, &id) {
        None => return Ok(()),
        Some(i) => i,
    };
    let stamp = match next_stamp(state.clock, now) {
        Some(s) => s,
        None => return Err(validation("the clock has run out of time stamps")),
    };
    let mut t = clone_task(&state.tasks[i]);
    proof {
        lemma_task_at(state, i as int);
    }
    t.status = status;
    t.updated_at = stamp;
    replace_task(state, i, t);
    Ok(())
}

/// Sets the status of the task with the given id, stamped now.
pub fn set_task_status(state: &mut AppState, id: String, status: TaskStatus) -> (r: CmdResult<()>)
    requires
        old(state).wf(),
    ensures
        final(state).wf(),
        !has_task(old(state).tasks@, id@) ==> r is Ok && old(state).same(&*final(state)),
        has_task(old(state).tasks@, id@) ==> match r {
            Ok(_) => {
                &&& final(state).clock > old(state).clock
                &&& forall|i: int|
                    0 <= i < old(state).tasks@.len() && (#[trigger] old(state).tasks@[i]).id@
                        == id@ ==> final(state).tasks@ == old(state).tasks@.remove(i).push(
                        restatused_task(old(state).tasks@[i], status, final(state).clock),
                    )
                &&& old(state).keeps(&*final(state), set![Table::Tasks])
            },
            Err(e) => e is Validation && old(state).clock == i64::MAX && old(state).same(
                &*final(state),
            ),
        },
{
    let now = now_millis();
    set_task_status_at(state, id, status, now)
}

/// The audit entry that `add_reason` appends.
pub open spec fn new_reason(input: ReasonInput, id: String, now: i64) -> StatusReason {
    StatusReason {
        id,
        task_id: input.task_id,
        status: input.status,
        note: input.note,
        created_at: now,
    }
}

/// Appends an audit entry with the given id at time `now`; the task must exist.
pub fn add_reason_at(state: &mut AppState, input: ReasonInput, id: String, now: i64) -> (r:
    CmdResult<()>)
    requires
        old(state).wf(),
    ensures
        final(state).wf(),
        final(state).clock == old(state).clock,
        match r {
            Ok(_) => {
                &&& has_task(old(state).tasks@, input.task_id@)
                &&& final(state).status_reasons@ == old(state).status_reasons@.push(
                    new_reason(input, id, now),
                )
                &&& old(state).keeps(&*final(state), set![Table::StatusReasons])
            },
            Err(e) => e is Constraint && !has_task(old(state).tasks@, input.task_id@) && old(
                state,
            ).same(&*final(state)),
        },
{
    match find_task(&state.tasks, &input.task_id) {
        None => Err(constraint("the task does not exist")),
        Some(_) => {
            state.status_reasons.push(
                StatusReason {
                    id,
                    task_id: input.task_id,
                    status: input.status,
                    note: input.note,
                    created_at: now,
                },
            );
            Ok(())
        },
    }
}

/// Appends an audit entry for a task, with a fresh id, dated now. It does not
/// change the task's status.
pub fn add_reason(state: &mut AppState, input: ReasonInput) -> (r: CmdResult<()>)
    requires
        old(state).wf(),
    ensures
        final(state).wf(),
        final(state).clock == old(state).clock,
        match r {
            Ok(_) => {
                &&& has_task(old(state).tasks@, input.task_id@)
                &&& final(state).status_reasons@.len() == old(state).status_reasons@.len() + 1
                &&& final(state).status_reasons@.drop_last() == old(state).status_reasons@
                &&& final(state).status_reasons@.last().task_id == input.task_id
                &&& final(state).status_reasons@.last().status == input.status
                &&& final(state).status_reasons@.last().note == input.note
                &&& old(state).keeps(&*final(state), set![Table::StatusReasons])
            },
            Err(e) => e is Constraint && !has_task(old(state).tasks@, input.task_id@) && old(
                state,
            ).same(&*final(state)),
        },
{
    let id = fresh_uuid();
    let now = now_millis();
    let r = add_reason_at(state, input, id, now);
    proof {
        if r is Ok {
            assert(final(state).status_reasons@.drop_last() =~= old(state).status_reasons@);
        }
    }
    r
}

/// Merges a partial update over the task with the given id at time `now`:
/// present fields replace stored ones, absent ones keep them.
pub fn update_task_at(state: &mut AppState, input: UpdateTaskInput, now: i64) -> (r: CmdResult<()>)
    requires
        old(state).wf(),
    ensures
        final(state).wf(),
        match r {
            Ok(_) => {
                &&& has_task(old(state).tasks@, input.id@)
                &&& stamp_after(old(state).clock, now) == Some(final(state).clock)
                &&& forall|i: int|
                    0 <= i < old(state).tasks@.len() && (#[trigger] old(state).tasks@[i]).id@
                        == input.id@ ==> final(state).tasks@ == old(state).tasks@.remove(i).push(
                        patched_task(old(state).tasks@[i], input, final(state).clock),
                    )
                &&& old(state).keeps(&*final(state), set![Table::Tasks])
            },
            Err(e) => {
                &&& old(state).same(&*final(state))
                &&& !has_task(old(state).tasks@, input.id@) ==> e is NotFound
                &&& has_task(old(state).tasks@, input.id@) ==> e is Validation && stamp_after(
                    old(state).clock,
                    now,
                ) is None
            },
        },
{
    let i = match find_task(&state.tasks, &input.id) {
        None => return Err(not_found("task not found")),
        Some(i) => i,
    };
    let stamp = match next_stamp(state.clock, now) {
        Some(s) => s,
        None => return Err(validation("the clock has run out of time stamps")),
    };
    let cur = clone_task(&state.tasks[i]);
    proof {
        lemma_task_at(state, i as int);
    }
    let t = Task {
        id: cur.id,
        name: match input.name {
            Some(v) => v,
            None => cur.name,
        },
        category: match input.category {
            Some(v) => v,
            None => cur.category,
        },
        short_summary: match input.short_summary {
            Some(v) => Some(v),
            None => cur.short_summary,
        },
        description: match input.description {
            Some(v) => Some(v),
            None => cur.description,
        },
        status: match input.status {
            Some(v) => v,
            None => cur.status,
        },
        current_stage: match input.current_stage {
            Some(v) => Some(v),
            None => cur.current_stage,
        },
        start_at: match input.start_at {
            Some(v) => Some(v),
            None => cur.start_at,
        },
        end_est_at: match input.end_est_at {
            Some(v) => Some(v),
            None => cur.end_est_at,
        },
        created_at: cur.created_at,
        updated_at: stamp,
        project_id: cur.project_id,
        workspace_id: cur.workspace_id,
        origin_idea_id: cur.origin_idea_id,
    };
    replace_task(state, i, t);
    Ok(())
}

/// Merges a partial update over the task with the given id, stamped now.
pub fn update_task(state: &mut AppState, input: UpdateTaskInput) -> (r: CmdResult<()>)
    requires
        old(state).wf(),
    ensures
        final(state).wf(),
        match r {
            Ok(_) => {
                &&& has_task(old(state).tasks@, input.id@)
                &&& final(state).clock > old(state).clock
                &&& forall|i: int|
                    0 <= i < old(state).tasks@.len() && (#[trigger] old(state).tasks@[i]).id@
                        == input.id@ ==> final(state).tasks@ == old(state).tasks@.remove(i).push(
                        patched_task(old(state).tasks@[i], input, final(state).clock),
                    )
                &&& old(state).keeps(&*final(state), set![Table::Tasks])
            },
            Err(e) => {
                &&& old(state).same(&*final(state))
                &&& !has_task(old(state).tasks@, input.id@) ==> e is NotFound
                &&& has_task(old(state).tasks@, input.id@) ==> e is Validation && old(state).clock
                    == i64::MAX
            },
        },
{
    let now = now_millis();
    update_task_at(state, input, now)
}

} // verus!
