//! Ideas: creation, listing, lookup, merge-patch updates, their notes, links
//! and attachments, links to documents, search, and turning an idea into a task.

use vstd::prelude::*;
use crate::error::CmdResult;
use crate::outside::{fresh_uuid, lowercased, now_millis};
use crate::search::{fold_query, folded_match, text_matches};
use crate::projects::find_project;
use crate::state::{
    constraint, copy_opt, doc_stamps, has_doc, has_idea, has_pair, has_project,
    has_task, idea_ids, idea_stamps, lemma_distinct_push, lemma_distinct_remove_push,
    lemma_rising_later, lemma_rising_push, lemma_rising_remove_push, next_stamp, not_found,
    stamp_after, task_ids, task_stamps, text, validation, AppState, Idea, IdeaAttachment,
    IdeaLink, IdeaNote, Pair, Table, Task, TaskStatus, version_stamps, lemma_idea_push,
    lemma_idea_replace, lemma_task_push,
};
use crate::tasks::find_task;
use crate::docs::find_doc;
pub use crate::state::IdeaStatus;

verus! {

impl IdeaStatus {
    /// The stored name of the status.
    pub open spec fn name(&self) -> Seq<char> {
        match self {
            IdeaStatus::Inbox => "inbox"@,
            IdeaStatus::Exploring => "exploring"@,
            IdeaStatus::Building => "building"@,
            IdeaStatus::Paused => "paused"@,
            IdeaStatus::Shipped => "shipped"@,
            IdeaStatus::Dropped => "dropped"@,
        }
    }

    /// The status with the given stored name; none for an unknown name.
    pub fn from_name(s: &String) -> (r: Option<IdeaStatus>)
        ensures
            match r {
                Some(st) => st.name() == s@,
                None => forall|st: IdeaStatus| #[trigger] st.name() != s@,
            },
    {
        if *s == text("inbox") {
            Some(IdeaStatus::Inbox)
        } else if *s == text("exploring") {
            Some(IdeaStatus::Exploring)
        } else if *s == text("building") {
            Some(IdeaStatus::Building)
        } else if *s == text("paused") {
            Some(IdeaStatus::Paused)
        } else if *s == text("shipped") {
            Some(IdeaStatus::Shipped)
        } else if *s == text("dropped") {
            Some(IdeaStatus::Dropped)
        } else {
            None
        }
    }

    /// The stored name of the status.
    pub fn to_string(&self) -> (r: String)
        ensures
            r@ == self.name(),
    {
        match self {
            IdeaStatus::Inbox => text("inbox"),
            IdeaStatus::Exploring => text("exploring"),
            IdeaStatus::Building => text("building"),
            IdeaStatus::Paused => text("paused"),
            IdeaStatus::Shipped => text("shipped"),
            IdeaStatus::Dropped => text("dropped"),
        }
    }
}

/// What a caller gives to create an idea; absent fields take their defaults.
pub struct IdeaInput {
    pub project_id: String,
    pub title: String,
    pub summary: Option<String>,
    pub status: Option<IdeaStatus>,
    pub priority: Option<i64>,
    pub effort_pts: Option<i64>,
    pub impact_pts: Option<i64>,
}

/// An idea as listed.
pub struct IdeaRow {
    pub id: String,
    pub project_id: String,
    pub title: String,
    pub status: IdeaStatus,
    pub priority: i64,
    pub updated_at: i64,
}

/// An idea in full.
pub struct IdeaDetail {
    pub id: String,
    pub project_id: String,
    pub title: String,
    pub summary: Option<String>,
    pub status: IdeaStatus,
    pub priority: i64,
    pub effort_pts: i64,
    pub impact_pts: i64,
    pub created_at: i64,
    pub updated_at: i64,
}

/// A partial update: each field that is present replaces the stored one.
pub struct UpdateIdeaInput {
    pub id: String,
    pub title: Option<String>,
    pub summary: Option<String>,
    pub status: Option<IdeaStatus>,
    pub priority: Option<i64>,
    pub effort_pts: Option<i64>,
    pub impact_pts: Option<i64>,
}

/// A note to add under an idea.
pub struct IdeaNoteInput {
    pub idea_id: String,
    pub body_md: String,
}

/// A link to add under an idea.
pub struct IdeaLinkInput {
    pub idea_id: String,
    pub kind: String,
    pub url: String,
    pub title: Option<String>,
}

/// A file to record under an idea.
pub struct IdeaAttachmentInput {
    pub idea_id: String,
    pub filename: String,
    pub path: String,
    pub mime: Option<String>,
}

/// An idea and a document to link.
pub struct IdeaDocLinkInput {
    pub idea_id: String,
    pub doc_id: String,
}

/// What a caller gives to turn an idea into a task.
pub struct IdeaToTaskInput {
    pub idea_id: String,
    pub category: String,
    pub description: Option<String>,
    pub start_at: Option<i64>,
    pub end_est_at: Option<i64>,
}

/// A priority brought into the range 0 to 4.
pub open spec fn clamp_priority(p: i64) -> i64 {
    if p < 0 {
        0
    } else if p > 4 {
        4
    } else {
        p
    }
}

pub fn clamp_priority_exec(p: i64) -> (r: i64)
    ensures
        r == clamp_priority(p),
        0 <= r <= 4,
{
    if p < 0 {
        0
    } else if p > 4 {
        4
    } else {
        p
    }
}

/// The idea that `add_idea` stores: status `inbox`, priority 2, effort and
/// impact 1 where absent; the priority clamped to 0 to 4.
pub open spec fn new_idea(input: IdeaInput, id: String, stamp: i64) -> Idea {
    Idea {
        id,
        project_id: input.project_id,
        title: input.title,
        summary: input.summary,
        status: match input.status {
            Some(s) => s,
            None => IdeaStatus::Inbox,
        },
        priority: clamp_priority(
            match input.priority {
                Some(p) => p,
                None => 2,
            },
        ),
        effort_pts: match input.effort_pts {
            Some(p) => p,
            None => 1,
        },
        impact_pts: match input.impact_pts {
            Some(p) => p,
            None => 1,
        },
        created_at: stamp,
        updated_at: stamp,
    }
}

/// The idea after a patch at time stamp `stamp`; a new priority is clamped to 0 to 4.
pub open spec fn patched_idea(cur: Idea, p: UpdateIdeaInput, stamp: i64) -> Idea {
    Idea {
        id: cur.id,
        project_id: cur.project_id,
        title: match p.title {
            Some(v) => v,
            None => cur.title,
        },
        summary: match p.summary {
            Some(v) => Some(v),
            None => cur.summary,
        },
        status: match p.status {
            Some(v) => v,
            None => cur.status,
        },
        priority: match p.priority {
            Some(v) => clamp_priority(v),
            None => cur.priority,
        },
        effort_pts: match p.effort_pts {
            Some(v) => v,
            None => cur.effort_pts,
        },
        impact_pts: match p.impact_pts {
            Some(v) => v,
            None => cur.impact_pts,
        },
        created_at: cur.created_at,
        updated_at: stamp,
    }
}

pub open spec fn idea_row(t: Idea) -> IdeaRow {
    IdeaRow {
        id: t.id,
        project_id: t.project_id,
        title: t.title,
        status: t.status,
        priority: t.priority,
        updated_at: t.updated_at,
    }
}

pub open spec fn idea_detail(t: Idea) -> IdeaDetail {
    IdeaDetail {
        id: t.id,
        project_id: t.project_id,
        title: t.title,
        summary: t.summary,
        status: t.status,
        priority: t.priority,
        effort_pts: t.effort_pts,
        impact_pts: t.impact_pts,
        created_at: t.created_at,
        updated_at: t.updated_at,
    }
}

/// The position of the idea with the given id.
pub fn find_idea(ideas: &Vec<Idea>, id: &String) -> (r: Option<usize>)
    ensures
        match r {
            Some(i) => i < ideas@.len() && ideas@[i as int].id@ == id@,
            None => !has_idea(ideas@, id@),
        },
{
    let mut i: usize = 0;
    while i < ideas.len()
        invariant
            i <= ideas@.len(),
            forall|k: int| 0 <= k < i ==> ideas@[k].id@ != id@,
        decreases ideas@.len() - i,
    {
        if ideas[i].id == *id {
            return Some(i);
        }
        i = i + 1;
    }
    None
}

/// In a well-formed store the idea at `i` is the only one with its id, its
/// stamps are at most the clock, and its project exists.
proof fn lemma_idea_at(state: &AppState, i: int)
    requires
        state.wf(),
        0 <= i < state.ideas@.len(),
    ensures
        state.ideas@[i].created_at <= state.ideas@[i].updated_at <= state.clock,
        has_project(state.projects@, state.ideas@[i].project_id@),
        forall|j: int|
            0 <= j < state.ideas@.len() && (#[trigger] state.ideas@[j]).id@
                == state.ideas@[i].id@ ==> j == i,
{
    assert(idea_stamps(state.ideas@)[i] == state.ideas@[i].updated_at);
    assert forall|j: int|
        0 <= j < state.ideas@.len() && (#[trigger] state.ideas@[j]).id@
            == state.ideas@[i].id@ implies j == i by {
        assert(idea_ids(state.ideas@)[i] == state.ideas@[i].id@);
        assert(idea_ids(state.ideas@)[j] == state.ideas@[j].id@);
    }
}

/// A copy of an idea, equal to it.
fn clone_idea(t: &Idea) -> (r: Idea)
    ensures
        r == *t,
{
    Idea {
        id: t.id.clone(),
        project_id: t.project_id.clone(),
        title: t.title.clone(),
        summary: copy_opt(&t.summary),
        status: t.status,
        priority: t.priority,
        effort_pts: t.effort_pts,
        impact_pts: t.impact_pts,
        created_at: t.created_at,
        updated_at: t.updated_at,
    }
}

/// Puts `t` in place of the idea at `i`, moving it to the end, as the most
/// recently updated one, and advances the clock to its stamp.
fn replace_idea(state: &mut AppState, i: usize, t: Idea)
    requires
        old(state).wf(),
        i < old(state).ideas@.len(),
        t.id@ == old(state).ideas@[i as int].id@,
        t.project_id == old(state).ideas@[i as int].project_id,
        t.updated_at > old(state).clock,
        t.created_at <= t.updated_at,
    ensures
        final(state).wf(),
        final(state).ideas@ == old(state).ideas@.remove(i as int).push(t),
        final(state).clock == t.updated_at,
        old(state).keeps(&*final(state), set![Table::Ideas]),
{
    let ghost s0 = state.ideas@;
    let stamp = t.updated_at;
    proof {
        lemma_idea_at(state, i as int);
        lemma_rising_remove_push(idea_stamps(s0), i as int, stamp, state.clock);
        lemma_distinct_remove_push(idea_ids(s0), i as int, t.id@);
        assert(idea_stamps(s0.remove(i as int).push(t)) =~= idea_stamps(s0).remove(i as int).push(
            stamp,
        ));
        assert(idea_ids(s0.remove(i as int).push(t)) =~= idea_ids(s0).remove(i as int).push(t.id@));
        lemma_rising_later(task_stamps(state.tasks@), state.clock, stamp);
        lemma_rising_later(doc_stamps(state.docs@), state.clock, stamp);
        lemma_rising_later(version_stamps(state.doc_versions@), state.clock, stamp);
        lemma_idea_replace(s0, i as int, t);
    }
    state.ideas.remove(i);
    state.ideas.push(t);
    state.clock = stamp;
    proof {
        let s1 = state.ideas@;
        assert forall|k: int| 0 <= k < s1.len() implies (#[trigger] s1[k]).created_at
            <= s1[k].updated_at && has_project(state.projects@, s1[k].project_id@) by {
            if k < s1.len() - 1 {
                let k0 = if k < i { k } else { k + 1 };
                assert(s1[k] == s0[k0]);
            }
        }
    }
}

/// Stores a new idea with the given id at time `now`; its project must exist.
pub fn add_idea_at(state: &mut AppState, input: IdeaInput, id: String, now: i64) -> (r: CmdResult<
    String,
>)
    requires
        old(state).wf(),
    ensures
        final(state).wf(),
        match r {
            Ok(rid) => {
                &&& has_project(old(state).projects@, input.project_id@)
                &&& stamp_after(old(state).clock, now) == Some(final(state).clock)
                &&& !has_idea(old(state).ideas@, id@)
                &&& rid == id
                &&& final(state).ideas@ == old(state).ideas@.push(
                    new_idea(input, id, final(state).clock),
                )
                &&& old(state).keeps(&*final(state), set![Table::Ideas])
            },
            Err(e) => {
                &&& old(state).same(&*final(state))
                &&& !has_project(old(state).projects@, input.project_id@) ==> e is Constraint
                &&& has_project(old(state).projects@, input.project_id@) ==> {
                    ||| e is Validation && stamp_after(old(state).clock, now) is None
                    ||| e is Constraint && stamp_after(old(state).clock, now) is Some && has_idea(
                        old(state).ideas@,
                        id@,
                    )
                }
            },
        },
{
    if find_project(&state.projects, &input.project_id).is_none() {
        return Err(constraint("the project does not exist"));
    }
    let stamp = match next_stamp(state.clock, now) {
        Some(s) => s,
        None => return Err(validation("the clock has run out of time stamps")),
    };
    if find_idea(&state.ideas, &id).is_some() {
        return Err(constraint("an idea with this id exists"));
    }
    let rid = id.clone();
    let t = Idea {
        id,
        project_id: input.project_id,
        title: input.title,
        summary: input.summary,
        status: match input.status {
            Some(s) => s,
            None => IdeaStatus::Inbox,
        },
        priority: clamp_priority_exec(
            match input.priority {
                Some(p) => p,
                None => 2,
            },
        ),
        effort_pts: match input.effort_pts {
            Some(p) => p,
            None => 1,
        },
        impact_pts: match input.impact_pts {
            Some(p) => p,
            None => 1,
        },
        created_at: stamp,
        updated_at: stamp,
    };
    let ghost s0 = state.ideas@;
    proof {
        lemma_rising_push(idea_stamps(s0), stamp, state.clock);
        lemma_distinct_push(idea_ids(s0), t.id@);
        assert(idea_stamps(s0.push(t)) =~= idea_stamps(s0).push(stamp));
        assert(idea_ids(s0.push(t)) =~= idea_ids(s0).push(t.id@));
        lemma_rising_later(task_stamps(state.tasks@), state.clock, stamp);
        lemma_rising_later(doc_stamps(state.docs@), state.clock, stamp);
        lemma_rising_later(version_stamps(state.doc_versions@), state.clock, stamp);
        lemma_idea_push(s0, t);
    }
    state.ideas.push(t);
    state.clock = stamp;
    proof {
        assert forall|k: int| 0 <= k < state.ideas@.len() implies has_project(
            state.projects@,
            (#[trigger] state.ideas@[k]).project_id@,
        ) by {
            if k < s0.len() {
                assert(state.ideas@[k] == s0[k]);
            }
        }
    }
    Ok(rid)
}

/// Creates an idea with a fresh id, stamped now; returns its id.
pub fn add_idea(state: &mut AppState, input: IdeaInput) -> (r: CmdResult<String>)
    requires
        old(state).wf(),
    ensures
        final(state).wf(),
        match r {
            Ok(id) => {
                &&& has_project(old(state).projects@, input.project_id@)
                &&& final(state).clock > old(state).clock
                &&& final(state).ideas@ == old(state).ideas@.push(
                    new_idea(input, id, final(state).clock),
                )
                &&& old(state).keeps(&*final(state), set![Table::Ideas])
            },
            Err(e) => {
                &&& old(state).same(&*final(state))
                &&& !has_project(old(state).projects@, input.project_id@) ==> e is Constraint
                &&& has_project(old(state).projects@, input.project_id@) ==> (e is Validation
                    && old(state).clock == i64::MAX || e is Constraint && old(state).ideas@.len()
                    > 0)
            },
        },
{
    let id = fresh_uuid();
    let now = now_millis();
    add_idea_at(state, input, id, now)
}

/// The ideas of a project, most recently updated first.
pub fn list_ideas(state: &AppState, project_id: String) -> (r: CmdResult<Vec<IdeaRow>>)
    requires
        state.wf(),
    ensures
        r is Ok,
        r->Ok_0@ == project_hits(state.ideas@, project_id@, state.ideas@.len() as int).map_values(
            |i: int| idea_row(state.ideas@[i]),
        ),
{
    let n = state.ideas.len();
    let mut out: Vec<IdeaRow> = Vec::new();
    let mut k: usize = 0;
    while k < n
        invariant
            n == state.ideas@.len(),
            k <= n,
            out@ == project_hits(state.ideas@, project_id@, k as int).map_values(
                |i: int| idea_row(state.ideas@[i]),
            ),
        decreases n - k,
    {
        let t = &state.ideas[n - 1 - k];
        let ghost before = out@;
        if t.project_id == project_id {
            out.push(
                IdeaRow {
                    id: t.id.clone(),
                    project_id: t.project_id.clone(),
                    title: t.title.clone(),
                    status: t.status,
                    priority: t.priority,
                    updated_at: t.updated_at,
                },
            );
        }
        k = k + 1;
        proof {
            assert(out@ =~= project_hits(state.ideas@, project_id@, k as int).map_values(
                |i: int| idea_row(state.ideas@[i]),
            ));
        }
    }
    Ok(out)
}

/// The positions of the ideas of project `pid` among the last `k` of `s`,
/// from the last one backwards.
pub open spec fn project_hits(s: Seq<Idea>, pid: Seq<char>, k: int) -> Seq<int>
    decreases k,
{
    if k <= 0 {
        Seq::empty()
    } else {
        let rest = project_hits(s, pid, k - 1);
        let j = s.len() - k;
        if s[j].project_id@ == pid {
            rest.push(j)
        } else {
            rest
        }
    }
}

/// The idea with the given id.
pub fn get_idea(state: &AppState, id: String) -> (r: CmdResult<IdeaDetail>)
    requires
        state.wf(),
    ensures
        match r {
            Ok(d) => exists|i: int|
                0 <= i < state.ideas@.len() && state.ideas@[i].id@ == id@ && d == idea_detail(
                    #[trigger] state.ideas@[i],
                ),
            Err(e) => e is NotFound && !has_idea(state.ideas@, id@),
        },
{
    match find_idea(&state.ideas, &id) {
        None => Err(not_found("idea not found")),
        Some(i) => {
            let t = &state.ideas[i];
            Ok(
                IdeaDetail {
                    id: t.id.clone(),
                    project_id: t.project_id.clone(),
                    title: t.title.clone(),
                    summary: copy_opt(&t.summary),
                    status: t.status,
                    priority: t.priority,
                    effort_pts: t.effort_pts,
                    impact_pts: t.impact_pts,
                    created_at: t.created_at,
                    updated_at: t.updated_at,
                },
            )
        },
    }
}

/// Merges a partial update over the idea with the given id at time `now`.
pub fn update_idea_at(state: &mut AppState, input: UpdateIdeaInput, now: i64) -> (r: CmdResult<()>)
    requires
        old(state).wf(),
    ensures
        final(state).wf(),
        match r {
            Ok(_) => {
                &&& has_idea(old(state).ideas@, input.id@)
                &&& stamp_after(old(state).clock, now) == Some(final(state).clock)
                &&& forall|i: int|
                    0 <= i < old(state).ideas@.len() && (#[trigger] old(state).ideas@[i]).id@
                        == input.id@ ==> final(state).ideas@ == old(state).ideas@.remove(i).push(
                        patched_idea(old(state).ideas@[i], input, final(state).clock),
                    )
                &&& old(state).keeps(&*final(state), set![Table::Ideas])
            },
            Err(e) => {
                &&& old(state).same(&*final(state))
                &&& !has_idea(old(state).ideas@, input.id@) ==> e is NotFound
                &&& has_idea(old(state).ideas@, input.id@) ==> e is Validation && stamp_after(
                    old(state).clock,
                    now,
                ) is None
            },
        },
{
    let i = match find_idea(&state.ideas, &input.id) {
        None => return Err(not_found("idea not found")),
        Some(i) => i,
    };
    let stamp = match next_stamp(state.clock, now) {
        Some(s) => s,
        None => return Err(validation("the clock has run out of time stamps")),
    };
    let cur = clone_idea(&state.ideas[i]);
    proof {
        lemma_idea_at(state, i as int);
    }
    let t = Idea {
        id: cur.id,
        project_id: cur.project_id,
        title: match input.title {
            Some(v) => v,
            None => cur.title,
        },
        summary: match input.summary {
            Some(v) => Some(v),
            None => cur.summary,
        },
        status: match input.status {
            Some(v) => v,
            None => cur.status,
        },
        priority: match input.priority {
            Some(v) => clamp_priority_exec(v),
            None => cur.priority,
        },
        effort_pts: match input.effort_pts {
            Some(v) => v,
            None => cur.effort_pts,
        },
        impact_pts: match input.impact_pts {
            Some(v) => v,
            None => cur.impact_pts,
        },
        created_at: cur.created_at,
        updated_at: stamp,
    };
    replace_idea(state, i, t);
    Ok(())
}

/// Merges a partial update over the idea with the given id, stamped now.
pub fn update_idea(state: &mut AppState, input: UpdateIdeaInput) -> (r: CmdResult<()>)
    requires
        old(state).wf(),
    ensures
        final(state).wf(),
        match r {
            Ok(_) => {
                &&& has_idea(old(state).ideas@, input.id@)
                &&& final(state).clock > old(state).clock
                &&& forall|i: int|
                    0 <= i < old(state).ideas@.len() && (#[trigger] old(state).ideas@[i]).id@
                        == input.id@ ==> final(state).ideas@ == old(state).ideas@.remove(i).push(
                        patched_idea(old(state).ideas@[i], input, final(state).clock),
                    )
                &&& old(state).keeps(&*final(state), set![Table::Ideas])
            },
            Err(e) => {
                &&& old(state).same(&*final(state))
                &&& !has_idea(old(state).ideas@, input.id@) ==> e is NotFound
                &&& has_idea(old(state).ideas@, input.id@) ==> e is Validation && old(state).clock
                    == i64::MAX
            },
        },
{
    let now = now_millis();
    update_idea_at(state, input, now)
}

/// Adds a note with the given id under an existing idea at time `now`.
pub fn add_idea_note_at(state: &mut AppState, input: IdeaNoteInput, id: String, now: i64) -> (r:
    CmdResult<String>)
    requires
        old(state).wf(),
    ensures
        final(state).wf(),
        final(state).clock == old(state).clock,
        match r {
            Ok(rid) => {
                &&& has_idea(old(state).ideas@, input.idea_id@)
                &&& rid == id
                &&& final(state).idea_notes@ == old(state).idea_notes@.push(
                    IdeaNote {
                        id,
                        idea_id: input.idea_id,
                        body_md: input.body_md,
                        created_at: now,
                        updated_at: now,
                    },
                )
                &&& old(state).keeps(&*final(state), set![Table::IdeaNotes])
            },
            Err(e) => e is Constraint && !has_idea(old(state).ideas@, input.idea_id@) && old(
                state,
            ).same(&*final(state)),
        },
{
    if find_idea(&state.ideas, &input.idea_id).is_none() {
        return Err(constraint("the idea does not exist"));
    }
    let rid = id.clone();
    state.idea_notes.push(
        IdeaNote { id, idea_id: input.idea_id, body_md: input.body_md, created_at: now, updated_at: now },
    );
    Ok(rid)
}

/// Adds a note under an existing idea, with a fresh id, dated now; returns its id.
pub fn add_idea_note(state: &mut AppState, input: IdeaNoteInput) -> (r: CmdResult<String>)
    requires
        old(state).wf(),
    ensures
        final(state).wf(),
        final(state).clock == old(state).clock,
        match r {
            Ok(id) => {
                &&& has_idea(old(state).ideas@, input.idea_id@)
                &&& final(state).idea_notes@.len() == old(state).idea_notes@.len() + 1
                &&& final(state).idea_notes@.drop_last() == old(state).idea_notes@
                &&& final(state).idea_notes@.last().id == id
                &&& final(state).idea_notes@.last().idea_id == input.idea_id
                &&& final(state).idea_notes@.last().body_md == input.body_md
                &&& old(state).keeps(&*final(state), set![Table::IdeaNotes])
            },
            Err(e) => e is Constraint && !has_idea(old(state).ideas@, input.idea_id@) && old(
                state,
            ).same(&*final(state)),
        },
{
    let id = fresh_uuid();
    let now = now_millis();
    let r = add_idea_note_at(state, input, id, now);
    proof {
        if r is Ok {
            assert(final(state).idea_notes@.drop_last() =~= old(state).idea_notes@);
        }
    }
    r
}

/// The kinds a link under an idea may have.
pub open spec fn link_kind_ok(kind: Seq<char>) -> bool {
    kind == "ref"@ || kind == "tweet"@ || kind == "video"@ || kind == "doc"@ || kind == "other"@
}

/// Whether `kind` is a kind a link under an idea may have.
pub fn is_link_kind(kind: &String) -> (r: bool)
    ensures
        r == link_kind_ok(kind@),
{
    *kind == text("ref") || *kind == text("tweet") || *kind == text("video") || *kind == text("doc")
        || *kind == text("other")
}

/// Adds a link with the given id under an existing idea at time `now`; the
/// kind must be one of the known ones.
pub fn add_idea_link_at(state: &mut AppState, input: IdeaLinkInput, id: String, now: i64) -> (r:
    CmdResult<String>)
    requires
        old(state).wf(),
    ensures
        final(state).wf(),
        final(state).clock == old(state).clock,
        match r {
            Ok(rid) => {
                &&& has_idea(old(state).ideas@, input.idea_id@)
                &&& link_kind_ok(input.kind@)
                &&& rid == id
                &&& final(state).idea_links@ == old(state).idea_links@.push(
                    IdeaLink {
                        id,
                        idea_id: input.idea_id,
                        kind: input.kind,
                        url: input.url,
                        title: input.title,
                        created_at: now,
                    },
                )
                &&& old(state).keeps(&*final(state), set![Table::IdeaLinks])
            },
            Err(e) => {
                &&& old(state).same(&*final(state))
                &&& !link_kind_ok(input.kind@) ==> e is Validation
                &&& link_kind_ok(input.kind@) ==> e is Constraint && !has_idea(
                    old(state).ideas@,
                    input.idea_id@,
                )
            },
        },
{
    if !is_link_kind(&input.kind) {
        return Err(validation("Link kind must be ref, tweet, video, doc or other"));
    }
    if find_idea(&state.ideas, &input.idea_id).is_none() {
        return Err(constraint("the idea does not exist"));
    }
    let rid = id.clone();
    state.idea_links.push(
        IdeaLink {
            id,
            idea_id: input.idea_id,
            kind: input.kind,
            url: input.url,
            title: input.title,
            created_at: now,
        },
    );
    Ok(rid)
}

/// Adds a link under an existing idea, with a fresh id, dated now; returns its id.
pub fn add_idea_link(state: &mut AppState, input: IdeaLinkInput) -> (r: CmdResult<String>)
    requires
        old(state).wf(),
    ensures
        final(state).wf(),
        final(state).clock == old(state).clock,
        match r {
            Ok(id) => {
                &&& has_idea(old(state).ideas@, input.idea_id@)
                &&& link_kind_ok(input.kind@)
                &&& final(state).idea_links@.len() == old(state).idea_links@.len() + 1
                &&& final(state).idea_links@.drop_last() == old(state).idea_links@
                &&& final(state).idea_links@.last().id == id
                &&& final(state).idea_links@.last().idea_id == input.idea_id
                &&& final(state).idea_links@.last().kind == input.kind
                &&& final(state).idea_links@.last().url == input.url
                &&& final(state).idea_links@.last().title == input.title
                &&& old(state).keeps(&*final(state), set![Table::IdeaLinks])
            },
            Err(e) => {
                &&& old(state).same(&*final(state))
                &&& !link_kind_ok(input.kind@) ==> e is Validation
                &&& link_kind_ok(input.kind@) ==> e is Constraint && !has_idea(
                    old(state).ideas@,
                    input.idea_id@,
                )
            },
        },
{
    let id = fresh_uuid();
    let now = now_millis();
    let r = add_idea_link_at(state, input, id, now);
    proof {
        if r is Ok {
            assert(final(state).idea_links@.drop_last() =~= old(state).idea_links@);
        }
    }
    r
}

/// The mime type as stored: the given one, or the empty text.
pub open spec fn mime_or_empty(m: Option<String>) -> Seq<char> {
    match m {
        Some(s) => s@,
        None => Seq::empty(),
    }
}

pub fn mime_text(m: Option<String>) -> (r: String)
    ensures
        r@ == mime_or_empty(m),
{
    match m {
        Some(s) => s,
        None => String::new(),
    }
}

/// Records a file with the given id under an existing idea at time `now`.
pub fn add_idea_attachment_at(
    state: &mut AppState,
    input: IdeaAttachmentInput,
    id: String,
    now: i64,
) -> (r: CmdResult<String>)
    requires
        old(state).wf(),
    ensures
        final(state).wf(),
        final(state).clock == old(state).clock,
        match r {
            Ok(rid) => {
                &&& has_idea(old(state).ideas@, input.idea_id@)
                &&& rid == id
                &&& final(state).idea_attachments@.len() == old(state).idea_attachments@.len() + 1
                &&& final(state).idea_attachments@.drop_last() == old(state).idea_attachments@
                &&& final(state).idea_attachments@.last().id == id
                &&& final(state).idea_attachments@.last().idea_id == input.idea_id
                &&& final(state).idea_attachments@.last().filename == input.filename
                &&& final(state).idea_attachments@.last().path == input.path
                &&& final(state).idea_attachments@.last().mime@ == mime_or_empty(input.mime)
                &&& final(state).idea_attachments@.last().created_at == now
                &&& old(state).keeps(&*final(state), set![Table::IdeaAttachments])
            },
            Err(e) => e is Constraint && !has_idea(old(state).ideas@, input.idea_id@) && old(
                state,
            ).same(&*final(state)),
        },
{
    if find_idea(&state.ideas, &input.idea_id).is_none() {
        return Err(constraint("the idea does not exist"));
    }
    let rid = id.clone();
    let ghost s0 = state.idea_attachments@;
    state.idea_attachments.push(
        IdeaAttachment {
            id,
            idea_id: input.idea_id,
            filename: input.filename,
            path: input.path,
            mime: mime_text(input.mime),
            created_at: now,
        },
    );
    proof {
        assert(state.idea_attachments@.drop_last() =~= s0);
    }
    Ok(rid)
}

/// Records a file under an existing idea, with a fresh id, dated now; returns its id.
pub fn add_idea_attachment(state: &mut AppState, input: IdeaAttachmentInput) -> (r: CmdResult<
    String,
>)
    requires
        old(state).wf(),
    ensures
        final(state).wf(),
        final(state).clock == old(state).clock,
        match r {
            Ok(id) => {
                &&& has_idea(old(state).ideas@, input.idea_id@)
                &&& final(state).idea_attachments@.len() == old(state).idea_attachments@.len() + 1
                &&& final(state).idea_attachments@.drop_last() == old(state).idea_attachments@
                &&& final(state).idea_attachments@.last().id == id
                &&& final(state).idea_attachments@.last().idea_id == input.idea_id
                &&& final(state).idea_attachments@.last().filename == input.filename
                &&& final(state).idea_attachments@.last().path == input.path
                &&& final(state).idea_attachments@.last().mime@ == mime_or_empty(input.mime)
                &&& old(state).keeps(&*final(state), set![Table::IdeaAttachments])
            },
            Err(e) => e is Constraint && !has_idea(old(state).ideas@, input.idea_id@) && old(
                state,
            ).same(&*final(state)),
        },
{
    let id = fresh_uuid();
    let now = now_millis();
    add_idea_attachment_at(state, input, id, now)
}

/// Whether some link joins the two ids.
pub fn find_pair(map: &Vec<Pair>, left: &String, right: &String) -> (r: bool)
    ensures
        r == has_pair(map@, left@, right@),
{
    let mut i: usize = 0;
    while i < map.len()
        invariant
            i <= map@.len(),
            forall|k: int| 0 <= k < i ==> !(map@[k].left@ == left@ && map@[k].right@ == right@),
        decreases map@.len() - i,
    {
        if map[i].left == *left && map[i].right == *right {
            return true;
        }
        i = i + 1;
    }
    false
}

/// A link table after linking two ids: unchanged where they are linked already.
pub open spec fn linked(map: Seq<Pair>, left: String, right: String) -> Seq<Pair> {
    if has_pair(map, left@, right@) {
        map
    } else {
        map.push(Pair { left, right })
    }
}

/// Links an existing idea to an existing document; linking again changes nothing.
pub fn link_idea_doc(state: &mut AppState, input: IdeaDocLinkInput) -> (r: CmdResult<()>)
    requires
        old(state).wf(),
    ensures
        final(state).wf(),
        final(state).clock == old(state).clock,
        match r {
            Ok(_) => {
                &&& has_idea(old(state).ideas@, input.idea_id@)
                &&& has_doc(old(state).docs@, input.doc_id@)
                &&& final(state).idea_doc_map@ == linked(
                    old(state).idea_doc_map@,
                    input.idea_id,
                    input.doc_id,
                )
                &&& old(state).keeps(&*final(state), set![Table::IdeaDocMap])
            },
            Err(e) => {
                &&& e is Constraint
                &&& !has_idea(old(state).ideas@, input.idea_id@) || !has_doc(
                    old(state).docs@,
                    input.doc_id@,
                )
                &&& old(state).same(&*final(state))
            },
        },
{
    if find_idea(&state.ideas, &input.idea_id).is_none() {
        return Err(constraint("the idea does not exist"));
    }
    if find_doc(&state.docs, &input.doc_id).is_none() {
        return Err(constraint("the document does not exist"));
    }
    if !find_pair(&state.idea_doc_map, &input.idea_id, &input.doc_id) {
        state.idea_doc_map.push(Pair { left: input.idea_id, right: input.doc_id });
    }
    Ok(())
}

/// An idea that a search selects: in project `pid` where one is given, with a
/// term of its folded title or summary that starts with the folded query `qf`.
pub open spec fn idea_selected(i: Idea, qf: Seq<char>, pid: Option<String>) -> bool {
    &&& match pid {
        Some(p) => i.project_id@ == p@,
        None => true,
    }
    &&& {
        ||| folded_match(i.title@, qf)
        ||| match i.summary {
            Some(s) => folded_match(s@, qf),
            None => false,
        }
    }
}

/// The positions of the selected ideas among the last `k` of `s`, from the
/// last one backwards.
pub open spec fn idea_hits(s: Seq<Idea>, qf: Seq<char>, pid: Option<String>, k: int) -> Seq<int>
    decreases k,
{
    if k <= 0 {
        Seq::empty()
    } else {
        let rest = idea_hits(s, qf, pid, k - 1);
        let j = s.len() - k;
        if idea_selected(s[j], qf, pid) {
            rest.push(j)
        } else {
            rest
        }
    }
}

/// Whether a term of the idea's folded title or summary starts with the folded query `qf`.
pub fn idea_matches(i: &Idea, qf: &Vec<char>) -> (r: bool)
    ensures
        r == ({
            ||| folded_match(i.title@, qf@)
            ||| match i.summary {
                Some(s) => folded_match(s@, qf@),
                None => false,
            }
        }),
{
    if text_matches(&i.title, qf) {
        return true;
    }
    match &i.summary {
        Some(s) => text_matches(s, qf),
        None => false,
    }
}

/// The (id, title) of each idea with a term of its folded title or summary
/// that starts with the folded query, in the given project where one is given, most recently
/// updated first.
pub fn search_ideas(state: &AppState, q: String, project_id: Option<String>) -> (r: CmdResult<
    Vec<(String, String)>,
>)
    requires
        state.wf(),
    ensures
        r is Ok,
        r->Ok_0@ == idea_hits(state.ideas@, lowercased(q@), project_id, state.ideas@.len() as int).map_values(
            |i: int| (state.ideas@[i].id, state.ideas@[i].title),
        ),
{
    let qf = fold_query(&q);
    let n = state.ideas.len();
    let mut out: Vec<(String, String)> = Vec::new();
    let mut k: usize = 0;
    while k < n
        invariant
            n == state.ideas@.len(),
            k <= n,
            qf@ == lowercased(q@),
            out@ == idea_hits(state.ideas@, qf@, project_id, k as int).map_values(
                |i: int| (state.ideas@[i].id, state.ideas@[i].title),
            ),
        decreases n - k,
    {
        let t = &state.ideas[n - 1 - k];
        let in_project = match &project_id {
            Some(p) => t.project_id == *p,
            None => true,
        };
        if in_project && idea_matches(t, &qf) {
            out.push((t.id.clone(), t.title.clone()));
        }
        k = k + 1;
        proof {
            assert(out@ =~= idea_hits(state.ideas@, qf@, project_id, k as int).map_values(
                |i: int| (state.ideas@[i].id, state.ideas@[i].title),
            ));
        }
    }
    Ok(out)
}

/// The task made from idea `idea` of project `p`: named after the idea's title,
/// summarised by its summary, status `todo`, in the project and its workspace.
pub open spec fn task_from_idea(
    idea: Idea,
    p: crate::state::Project,
    input: IdeaToTaskInput,
    task_id: String,
    stamp: i64,
) -> Task {
    Task {
        id: task_id,
        name: idea.title,
        category: input.category,
        short_summary: idea.summary,
        description: input.description,
        status: TaskStatus::Todo,
        current_stage: None,
        start_at: input.start_at,
        end_est_at: input.end_est_at,
        created_at: stamp,
        updated_at: stamp,
        project_id: Some(p.id),
        workspace_id: Some(p.workspace_id),
        origin_idea_id: Some(idea.id),
    }
}

/// What `create_task_from_idea` does, from `s0` to `s1`, with task id
/// `task_id` at time `now`: on success both the task and its link to the idea
/// are written; on failure neither is, and nothing else changes.
pub open spec fn task_from_idea_post(
    s0: AppState,
    input: IdeaToTaskInput,
    task_id: String,
    now: i64,
    s1: AppState,
    r: CmdResult<String>,
) -> bool {
    match r {
        Ok(rid) => {
            &&& rid == task_id
            &&& stamp_after(s0.clock, now) == Some(s1.clock)
            &&& !has_task(s0.tasks@, task_id@)
            &&& exists|i: int, j: int|
                0 <= i < s0.ideas@.len() && 0 <= j < s0.projects@.len() && (#[trigger] s0.ideas@[i]).id@
                    == input.idea_id@ && (#[trigger] s0.projects@[j]).id@ == s0.ideas@[i].project_id@
                    && s1.tasks@ == s0.tasks@.push(
                    task_from_idea(s0.ideas@[i], s0.projects@[j], input, task_id, s1.clock),
                ) && s1.idea_task_map@ == linked(s0.idea_task_map@, s0.ideas@[i].id, task_id)
            &&& s0.keeps(&s1, set![Table::Tasks, Table::IdeaTaskMap])
        },
        Err(e) => {
            &&& s0.same(&s1)
            &&& !has_idea(s0.ideas@, input.idea_id@) ==> e is NotFound
            &&& has_idea(s0.ideas@, input.idea_id@) ==> {
                ||| e is Validation && stamp_after(s0.clock, now) is None
                ||| e is Constraint && stamp_after(s0.clock, now) is Some && has_task(
                    s0.tasks@,
                    task_id@,
                )
            }
        },
    }
}

/// Turns the idea into a task with id `task_id` at time `now`, and links the two.
pub fn create_task_from_idea_at(
    state: &mut AppState,
    input: IdeaToTaskInput,
    task_id: String,
    now: i64,
) -> (r: CmdResult<String>)
    requires
        old(state).wf(),
    ensures
        final(state).wf(),
        task_from_idea_post(*old(state), input, task_id, now, *final(state), r),
{
    let i = match find_idea(&state.ideas, &input.idea_id) {
        None => return Err(not_found("idea not found")),
        Some(i) => i,
    };
    proof {
        lemma_idea_at(state, i as int);
    }
    let j = match find_project(&state.projects, &state.ideas[i].project_id) {
        None => return Err(not_found("the idea's project does not exist")),
        Some(j) => j,
    };
    let stamp = match next_stamp(state.clock, now) {
        Some(s) => s,
        None => return Err(validation("the clock has run out of time stamps")),
    };
    if find_task(&state.tasks, &task_id).is_some() {
        return Err(constraint("a task with this id exists"));
    }
    let idea = clone_idea(&state.ideas[i]);
    let project_id = state.projects[j].id.clone();
    let workspace_id = state.projects[j].workspace_id.clone();
    let t = Task {
        id: task_id.clone(),
        name: idea.title,
        category: input.category,
        short_summary: idea.summary,
        description: input.description,
        status: TaskStatus::Todo,
        current_stage: None,
        start_at: input.start_at,
        end_est_at: input.end_est_at,
        created_at: stamp,
        updated_at: stamp,
        project_id: Some(project_id),
        workspace_id: Some(workspace_id),
        origin_idea_id: Some(idea.id.clone()),
    };
    let ghost s0 = state.tasks@;
    proof {
        lemma_rising_push(task_stamps(s0), stamp, state.clock);
        lemma_distinct_push(task_ids(s0), t.id@);
        assert(task_stamps(s0.push(t)) =~= task_stamps(s0).push(stamp));
        assert(task_ids(s0.push(t)) =~= task_ids(s0).push(t.id@));
        lemma_rising_later(idea_stamps(state.ideas@), state.clock, stamp);
        lemma_rising_later(doc_stamps(state.docs@), state.clock, stamp);
        lemma_rising_later(version_stamps(state.doc_versions@), state.clock, stamp);
        lemma_task_push(s0, t);
    }
    state.tasks.push(t);
    state.clock = stamp;
    if !find_pair(&state.idea_task_map, &idea.id, &task_id) {
        state.idea_task_map.push(Pair { left: idea.id, right: task_id.clone() });
    }
    Ok(task_id)
}

/// Turns the idea into a task with a fresh id, stamped now, in the idea's
/// project and that project's workspace, and links the two; returns the task's id.
pub fn create_task_from_idea(state: &mut AppState, input: IdeaToTaskInput) -> (r: CmdResult<String>)
    requires
        old(state).wf(),
    ensures
        final(state).wf(),
        exists|task_id: String, now: i64|
            task_from_idea_post(*old(state), input, task_id, now, *final(state), r),
{
    let task_id = fresh_uuid();
    let now = now_millis();
    create_task_from_idea_at(state, input, task_id, now)
}

} // verus!
