//! The store: every table as a vector of rows, the clock that stamps writes,
//! and the rules that hold between them.

use vstd::prelude::*;
use vstd::string::StringExecFns;
use crate::error::AppError;
use crate::order::{projects_sorted, ws_sorted};

verus! {

/// The workflow state of a task. Any state may follow any other.
#[derive(Clone, Copy, PartialEq, Eq, Structural, Debug)]
pub enum TaskStatus {
    Todo,
    Started,
    InProgress,
    StageComplete,
    Completed,
    Dropped,
}

/// The workflow state of an idea. Any state may follow any other.
#[derive(Clone, Copy, PartialEq, Eq, Structural, Debug)]
pub enum IdeaStatus {
    Inbox,
    Exploring,
    Building,
    Paused,
    Shipped,
    Dropped,
}

/// The publication state of a document.
#[derive(Clone, Copy, PartialEq, Eq, Structural, Debug)]
pub enum DocStatus {
    Draft,
    InReview,
    Published,
}

/// A top-level grouping of projects; `kind` is `personal`, `work` or another text.
pub struct Workspace {
    pub id: String,
    pub name: String,
    pub kind: String,
    pub created_at: i64,
    pub updated_at: i64,
}

/// A container for tasks, ideas and documents inside one workspace, whose name
/// it carries.
pub struct Project {
    pub id: String,
    pub workspace_id: String,
    pub workspace_name: String,
    pub name: String,
    pub description: Option<String>,
    pub status: String,
    pub created_at: i64,
    pub updated_at: i64,
}

/// A unit of work. Times are milliseconds since the Unix epoch.
pub struct Task {
    pub id: String,
    pub name: String,
    pub category: String,
    pub short_summary: Option<String>,
    pub description: Option<String>,
    pub status: TaskStatus,
    pub current_stage: Option<String>,
    pub start_at: Option<i64>,
    pub end_est_at: Option<i64>,
    pub created_at: i64,
    pub updated_at: i64,
    pub project_id: Option<String>,
    pub workspace_id: Option<String>,
    pub origin_idea_id: Option<String>,
}

/// An entry of the audit trail of a task's status changes.
pub struct StatusReason {
    pub id: String,
    pub task_id: String,
    pub status: TaskStatus,
    pub note: String,
    pub created_at: i64,
}

/// A captured idea; `priority` runs from 0 to 4.
pub struct Idea {
    pub id: String,
    pub project_id: String,
    pub title: String,
    pub summary: Option<String>,
    pub status: IdeaStatus,
    pub priority: i64,
    pub effort_pts: i64,
    pub impact_pts: i64,
    pub created_at: i64,
    pub updated_at: i64,
}

/// A note under an idea.
pub struct IdeaNote {
    pub id: String,
    pub idea_id: String,
    pub body_md: String,
    pub created_at: i64,
    pub updated_at: i64,
}

/// A link under an idea; `kind` is `ref`, `tweet`, `video`, `doc` or `other`.
pub struct IdeaLink {
    pub id: String,
    pub idea_id: String,
    pub kind: String,
    pub url: String,
    pub title: Option<String>,
    pub created_at: i64,
}

/// A file recorded under an idea; an absent mime type is kept as the empty text.
pub struct IdeaAttachment {
    pub id: String,
    pub idea_id: String,
    pub filename: String,
    pub path: String,
    pub mime: String,
    pub created_at: i64,
}

/// A document. `body_html` caches `body_md`.
pub struct Doc {
    pub id: String,
    pub project_id: String,
    pub title: String,
    pub slug: Option<String>,
    pub body_md: String,
    pub body_html: String,
    pub cover_path: Option<String>,
    pub status: DocStatus,
    pub created_at: i64,
    pub updated_at: i64,
}

/// An immutable snapshot of a document's body.
pub struct DocVersion {
    pub id: String,
    pub doc_id: String,
    pub body_md: String,
    pub created_at: i64,
}

/// A file recorded under a document.
pub struct DocAttachment {
    pub id: String,
    pub doc_id: String,
    pub filename: String,
    pub path: String,
    pub mime: String,
    pub created_at: i64,
}

/// A link between two rows, by their ids.
pub struct Pair {
    pub left: String,
    pub right: String,
}

/// The tables of the store.
#[derive(PartialEq, Eq, Structural)]
pub enum Table {
    Workspaces,
    Projects,
    Tasks,
    StatusReasons,
    Ideas,
    IdeaNotes,
    IdeaLinks,
    IdeaAttachments,
    IdeaDocMap,
    IdeaTaskMap,
    Docs,
    DocVersions,
    DocAttachments,
}

/// The whole store. `clock` is the last time stamp handed out: every write that
/// stamps a row takes a later one, so stamps never repeat.
pub struct AppState {
    pub app_dir: String,
    pub clock: i64,
    pub workspaces: Vec<Workspace>,
    pub projects: Vec<Project>,
    pub tasks: Vec<Task>,
    pub status_reasons: Vec<StatusReason>,
    pub ideas: Vec<Idea>,
    pub idea_notes: Vec<IdeaNote>,
    pub idea_links: Vec<IdeaLink>,
    pub idea_attachments: Vec<IdeaAttachment>,
    pub idea_doc_map: Vec<Pair>,
    pub idea_task_map: Vec<Pair>,
    pub docs: Vec<Doc>,
    pub doc_versions: Vec<DocVersion>,
    pub doc_attachments: Vec<DocAttachment>,
}

/// The stamp that a write at time `now` takes after the last stamp `clock`:
/// `now` where it is later, else one past `clock`; none once `clock` is the
/// largest value.
pub open spec fn stamp_after(clock: i64, now: i64) -> Option<i64> {
    if now > clock {
        Some(now)
    } else if clock < i64::MAX {
        Some((clock + 1) as i64)
    } else {
        None
    }
}

pub fn next_stamp(clock: i64, now: i64) -> (r: Option<i64>)
    ensures
        r == stamp_after(clock, now),
        r matches Some(s) ==> s > clock,
{
    if now > clock {
        Some(now)
    } else if clock < i64::MAX {
        Some(clock + 1)
    } else {
        None
    }
}

/// Stamps that rise strictly along the sequence and are bounded by `clock`.
pub open spec fn rising(stamps: Seq<i64>, clock: i64) -> bool {
    &&& forall|i: int, j: int| 0 <= i < j < stamps.len() ==> stamps[i] < stamps[j]
    &&& forall|i: int| 0 <= i < stamps.len() ==> stamps[i] <= clock
}

/// Ids that no two entries share.
pub open spec fn distinct(ids: Seq<Seq<char>>) -> bool {
    forall|i: int, j: int| 0 <= i < ids.len() && 0 <= j < ids.len() && i != j ==> ids[i] != ids[j]
}

pub open spec fn task_ids(s: Seq<Task>) -> Seq<Seq<char>> {
    s.map_values(|t: Task| t.id@)
}

pub open spec fn task_stamps(s: Seq<Task>) -> Seq<i64> {
    s.map_values(|t: Task| t.updated_at)
}

pub open spec fn idea_ids(s: Seq<Idea>) -> Seq<Seq<char>> {
    s.map_values(|t: Idea| t.id@)
}

pub open spec fn idea_stamps(s: Seq<Idea>) -> Seq<i64> {
    s.map_values(|t: Idea| t.updated_at)
}

pub open spec fn doc_ids(s: Seq<Doc>) -> Seq<Seq<char>> {
    s.map_values(|t: Doc| t.id@)
}

pub open spec fn doc_stamps(s: Seq<Doc>) -> Seq<i64> {
    s.map_values(|t: Doc| t.updated_at)
}

pub open spec fn version_stamps(s: Seq<DocVersion>) -> Seq<i64> {
    s.map_values(|v: DocVersion| v.created_at)
}

pub open spec fn workspace_ids(s: Seq<Workspace>) -> Seq<Seq<char>> {
    s.map_values(|t: Workspace| t.id@)
}

pub open spec fn project_ids(s: Seq<Project>) -> Seq<Seq<char>> {
    s.map_values(|t: Project| t.id@)
}

/// Some workspace has the id.
pub open spec fn has_workspace(s: Seq<Workspace>, id: Seq<char>) -> bool {
    exists|i: int| 0 <= i < s.len() && (#[trigger] s[i]).id@ == id
}

/// Some workspace has the id and the name.
pub open spec fn ws_named(s: Seq<Workspace>, id: Seq<char>, name: Seq<char>) -> bool {
    exists|i: int| 0 <= i < s.len() && (#[trigger] s[i]).id@ == id && s[i].name@ == name
}

/// Some project has the id.
pub open spec fn has_project(s: Seq<Project>, id: Seq<char>) -> bool {
    exists|i: int| 0 <= i < s.len() && (#[trigger] s[i]).id@ == id
}

/// Some task has the id.
pub open spec fn has_task(s: Seq<Task>, id: Seq<char>) -> bool {
    exists|i: int| 0 <= i < s.len() && (#[trigger] s[i]).id@ == id
}

/// Some idea has the id.
pub open spec fn has_idea(s: Seq<Idea>, id: Seq<char>) -> bool {
    exists|i: int| 0 <= i < s.len() && (#[trigger] s[i]).id@ == id
}

/// Some document has the id.
pub open spec fn has_doc(s: Seq<Doc>, id: Seq<char>) -> bool {
    exists|i: int| 0 <= i < s.len() && (#[trigger] s[i]).id@ == id
}

/// Some link joins the two ids.
pub open spec fn has_pair(s: Seq<Pair>, left: Seq<char>, right: Seq<char>) -> bool {
    exists|i: int| 0 <= i < s.len() && (#[trigger] s[i]).left@ == left && s[i].right@ == right
}

impl AppState {
    /// The rules that every operation keeps.
    pub open spec fn wf(&self) -> bool {
        &&& distinct(workspace_ids(self.workspaces@))
        &&& distinct(project_ids(self.projects@))
        &&& ws_sorted(self.workspaces@)
        &&& projects_sorted(self.projects@)
        &&& forall|i: int|
            0 <= i < self.projects@.len() ==> ws_named(
                self.workspaces@,
                (#[trigger] self.projects@[i]).workspace_id@,
                self.projects@[i].workspace_name@,
            )
        &&& distinct(task_ids(self.tasks@))
        &&& rising(task_stamps(self.tasks@), self.clock)
        &&& forall|i: int|
            0 <= i < self.tasks@.len() ==> (#[trigger] self.tasks@[i]).created_at
                <= self.tasks@[i].updated_at
        &&& distinct(idea_ids(self.ideas@))
        &&& rising(idea_stamps(self.ideas@), self.clock)
        &&& forall|i: int|
            0 <= i < self.ideas@.len() ==> (#[trigger] self.ideas@[i]).created_at
                <= self.ideas@[i].updated_at
        &&& forall|i: int|
            0 <= i < self.ideas@.len() ==> has_project(
                self.projects@,
                (#[trigger] self.ideas@[i]).project_id@,
            )
        &&& distinct(doc_ids(self.docs@))
        &&& forall|i: int|
            0 <= i < self.docs@.len() ==> has_project(
                self.projects@,
                (#[trigger] self.docs@[i]).project_id@,
            )
        &&& rising(doc_stamps(self.docs@), self.clock)
        &&& forall|i: int|
            0 <= i < self.docs@.len() ==> (#[trigger] self.docs@[i]).created_at
                <= self.docs@[i].updated_at
        &&& self.children_wf()
    }

    /// Every row of a child table names an existing parent, and versions are
    /// stamped in rising order, no later than the clock.
    pub open spec fn children_wf(&self) -> bool {
        &&& forall|i: int|
            0 <= i < self.status_reasons@.len() ==> has_task(
                self.tasks@,
                (#[trigger] self.status_reasons@[i]).task_id@,
            )
        &&& forall|i: int|
            0 <= i < self.idea_notes@.len() ==> has_idea(
                self.ideas@,
                (#[trigger] self.idea_notes@[i]).idea_id@,
            )
        &&& forall|i: int|
            0 <= i < self.idea_links@.len() ==> has_idea(
                self.ideas@,
                (#[trigger] self.idea_links@[i]).idea_id@,
            )
        &&& forall|i: int|
            0 <= i < self.idea_attachments@.len() ==> has_idea(
                self.ideas@,
                (#[trigger] self.idea_attachments@[i]).idea_id@,
            )
        &&& forall|i: int|
            0 <= i < self.idea_doc_map@.len() ==> has_idea(
                self.ideas@,
                (#[trigger] self.idea_doc_map@[i]).left@,
            ) && has_doc(self.docs@, self.idea_doc_map@[i].right@)
        &&& forall|i: int|
            0 <= i < self.idea_task_map@.len() ==> has_idea(
                self.ideas@,
                (#[trigger] self.idea_task_map@[i]).left@,
            ) && has_task(self.tasks@, self.idea_task_map@[i].right@)
        &&& forall|i: int|
            0 <= i < self.doc_versions@.len() ==> has_doc(
                self.docs@,
                (#[trigger] self.doc_versions@[i]).doc_id@,
            )
        &&& rising(version_stamps(self.doc_versions@), self.clock)
        &&& forall|i: int|
            0 <= i < self.doc_attachments@.len() ==> has_doc(
                self.docs@,
                (#[trigger] self.doc_attachments@[i]).doc_id@,
            )
    }

    /// Every table outside `touched`, and the data directory, are as in `self`.
    pub open spec fn keeps(&self, o: &AppState, touched: Set<Table>) -> bool {
        &&& o.app_dir == self.app_dir
        &&& !touched.contains(Table::Workspaces) ==> o.workspaces@ == self.workspaces@
        &&& !touched.contains(Table::Projects) ==> o.projects@ == self.projects@
        &&& !touched.contains(Table::Tasks) ==> o.tasks@ == self.tasks@
        &&& !touched.contains(Table::StatusReasons) ==> o.status_reasons@ == self.status_reasons@
        &&& !touched.contains(Table::Ideas) ==> o.ideas@ == self.ideas@
        &&& !touched.contains(Table::IdeaNotes) ==> o.idea_notes@ == self.idea_notes@
        &&& !touched.contains(Table::IdeaLinks) ==> o.idea_links@ == self.idea_links@
        &&& !touched.contains(Table::IdeaAttachments) ==> o.idea_attachments@
            == self.idea_attachments@
        &&& !touched.contains(Table::IdeaDocMap) ==> o.idea_doc_map@ == self.idea_doc_map@
        &&& !touched.contains(Table::IdeaTaskMap) ==> o.idea_task_map@ == self.idea_task_map@
        &&& !touched.contains(Table::Docs) ==> o.docs@ == self.docs@
        &&& !touched.contains(Table::DocVersions) ==> o.doc_versions@ == self.doc_versions@
        &&& !touched.contains(Table::DocAttachments) ==> o.doc_attachments@
            == self.doc_attachments@
    }

    /// The same store, clock included.
    pub open spec fn same(&self, o: &AppState) -> bool {
        &&& self.keeps(o, Set::empty())
        &&& o.clock == self.clock
    }

    /// An empty store whose attachments go under `app_dir`.
    pub fn new(app_dir: String) -> (r: AppState)
        ensures
            r.wf(),
            r.app_dir == app_dir,
            r.clock == i64::MIN,
            r.workspaces@.len() == 0,
            r.projects@.len() == 0,
            r.tasks@.len() == 0,
            r.ideas@.len() == 0,
            r.docs@.len() == 0,
            r.status_reasons@.len() == 0,
            r.idea_notes@.len() == 0,
            r.idea_links@.len() == 0,
            r.idea_attachments@.len() == 0,
            r.idea_doc_map@.len() == 0,
            r.idea_task_map@.len() == 0,
            r.doc_versions@.len() == 0,
            r.doc_attachments@.len() == 0,
    {
        AppState {
            app_dir,
            clock: i64::MIN,
            workspaces: Vec::new(),
            projects: Vec::new(),
            tasks: Vec::new(),
            status_reasons: Vec::new(),
            ideas: Vec::new(),
            idea_notes: Vec::new(),
            idea_links: Vec::new(),
            idea_attachments: Vec::new(),
            idea_doc_map: Vec::new(),
            idea_task_map: Vec::new(),
            docs: Vec::new(),
            doc_versions: Vec::new(),
            doc_attachments: Vec::new(),
        }
    }
}

/// Removing an entry keeps stamps rising; so does adding one later than the clock.
pub proof fn lemma_rising_remove_push(s: Seq<i64>, i: int, x: i64, clock: i64)
    requires
        rising(s, clock),
        0 <= i < s.len(),
        x > clock,
    ensures
        rising(s.remove(i).push(x), x),
{
    let r = s.remove(i);
    assert forall|a: int, b: int| 0 <= a < b < r.len() implies r[a] < r[b] by {
        let a0 = if a < i { a } else { a + 1 };
        let b0 = if b < i { b } else { b + 1 };
        assert(r[a] == s[a0] && r[b] == s[b0]);
    }
    assert forall|a: int| 0 <= a < r.len() implies r[a] <= clock by {
        let a0 = if a < i { a } else { a + 1 };
        assert(r[a] == s[a0]);
    }
}

/// Adding an entry later than the clock keeps stamps rising.
pub proof fn lemma_rising_push(s: Seq<i64>, x: i64, clock: i64)
    requires
        rising(s, clock),
        x > clock,
    ensures
        rising(s.push(x), x),
{
}

/// A later clock keeps stamps rising.
pub proof fn lemma_rising_later(s: Seq<i64>, clock: i64, later: i64)
    requires
        rising(s, clock),
        clock <= later,
    ensures
        rising(s, later),
{
}

/// Removing an entry and adding one with a fresh id keeps ids distinct.
pub proof fn lemma_distinct_remove_push(s: Seq<Seq<char>>, i: int, x: Seq<char>)
    requires
        distinct(s),
        0 <= i < s.len(),
        x == s[i],
    ensures
        distinct(s.remove(i).push(x)),
{
    let r = s.remove(i).push(x);
    assert forall|a: int, b: int| 0 <= a < r.len() && 0 <= b < r.len() && a != b implies r[a]
        != r[b] by {
        let a0 = if a == r.len() - 1 { i } else if a < i { a } else { a + 1 };
        let b0 = if b == r.len() - 1 { i } else if b < i { b } else { b + 1 };
        assert(r[a] == s[a0] && r[b] == s[b0]);
    }
}

/// Adding a task keeps every task id present.
pub proof fn lemma_task_push(s: Seq<Task>, t: Task)
    ensures
        forall|id: Seq<char>| has_task(s, id) ==> #[trigger] has_task(s.push(t), id),
        has_task(s.push(t), t.id@),
{
    assert(s.push(t)[s.len() as int] == t);
    assert forall|id: Seq<char>| has_task(s, id) implies #[trigger] has_task(s.push(t), id) by {
        let k = choose|k: int| 0 <= k < s.len() && (#[trigger] s[k]).id@ == id;
        assert(s.push(t)[k] == s[k]);
    }
}

/// Moving the task at `i` to the end as `t`, with the same id, keeps every task id present.
pub proof fn lemma_task_replace(s: Seq<Task>, i: int, t: Task)
    requires
        0 <= i < s.len(),
        t.id@ == s[i].id@,
    ensures
        forall|id: Seq<char>| has_task(s, id) ==> #[trigger] has_task(s.remove(i).push(t), id),
{
    let r = s.remove(i).push(t);
    assert forall|id: Seq<char>| has_task(s, id) implies #[trigger] has_task(r, id) by {
        let k = choose|k: int| 0 <= k < s.len() && (#[trigger] s[k]).id@ == id;
        if k == i {
            assert(r[r.len() - 1] == t);
        } else {
            let k1 = if k < i { k } else { k - 1 };
            assert(r[k1] == s[k]);
        }
    }
}

/// Adding a idea keeps every idea id present.
pub proof fn lemma_idea_push(s: Seq<Idea>, t: Idea)
    ensures
        forall|id: Seq<char>| has_idea(s, id) ==> #[trigger] has_idea(s.push(t), id),
        has_idea(s.push(t), t.id@),
{
    assert(s.push(t)[s.len() as int] == t);
    assert forall|id: Seq<char>| has_idea(s, id) implies #[trigger] has_idea(s.push(t), id) by {
        let k = choose|k: int| 0 <= k < s.len() && (#[trigger] s[k]).id@ == id;
        assert(s.push(t)[k] == s[k]);
    }
}

/// Moving the idea at `i` to the end as `t`, with the same id, keeps every idea id present.
pub proof fn lemma_idea_replace(s: Seq<Idea>, i: int, t: Idea)
    requires
        0 <= i < s.len(),
        t.id@ == s[i].id@,
    ensures
        forall|id: Seq<char>| has_idea(s, id) ==> #[trigger] has_idea(s.remove(i).push(t), id),
{
    let r = s.remove(i).push(t);
    assert forall|id: Seq<char>| has_idea(s, id) implies #[trigger] has_idea(r, id) by {
        let k = choose|k: int| 0 <= k < s.len() && (#[trigger] s[k]).id@ == id;
        if k == i {
            assert(r[r.len() - 1] == t);
        } else {
            let k1 = if k < i { k } else { k - 1 };
            assert(r[k1] == s[k]);
        }
    }
}

/// Adding a doc keeps every doc id present.
pub proof fn lemma_doc_push(s: Seq<Doc>, t: Doc)
    ensures
        forall|id: Seq<char>| has_doc(s, id) ==> #[trigger] has_doc(s.push(t), id),
        has_doc(s.push(t), t.id@),
{
    assert(s.push(t)[s.len() as int] == t);
    assert forall|id: Seq<char>| has_doc(s, id) implies #[trigger] has_doc(s.push(t), id) by {
        let k = choose|k: int| 0 <= k < s.len() && (#[trigger] s[k]).id@ == id;
        assert(s.push(t)[k] == s[k]);
    }
}

/// Moving the doc at `i` to the end as `t`, with the same id, keeps every doc id present.
pub proof fn lemma_doc_replace(s: Seq<Doc>, i: int, t: Doc)
    requires
        0 <= i < s.len(),
        t.id@ == s[i].id@,
    ensures
        forall|id: Seq<char>| has_doc(s, id) ==> #[trigger] has_doc(s.remove(i).push(t), id),
{
    let r = s.remove(i).push(t);
    assert forall|id: Seq<char>| has_doc(s, id) implies #[trigger] has_doc(r, id) by {
        let k = choose|k: int| 0 <= k < s.len() && (#[trigger] s[k]).id@ == id;
        if k == i {
            assert(r[r.len() - 1] == t);
        } else {
            let k1 = if k < i { k } else { k - 1 };
            assert(r[k1] == s[k]);
        }
    }
}

/// Inserting an id not yet present keeps ids distinct.
pub proof fn lemma_distinct_insert(s: Seq<Seq<char>>, p: int, x: Seq<char>)
    requires
        distinct(s),
        0 <= p <= s.len(),
        forall|i: int| 0 <= i < s.len() ==> s[i] != x,
    ensures
        distinct(s.insert(p, x)),
{
    let r = s.insert(p, x);
    assert forall|a: int, b: int| 0 <= a < r.len() && 0 <= b < r.len() && a != b implies r[a]
        != r[b] by {
        if a != p && b != p {
            let a0 = if a < p { a } else { a - 1 };
            let b0 = if b < p { b } else { b - 1 };
            assert(r[a] == s[a0] && r[b] == s[b0]);
        } else if a == p {
            let b0 = if b < p { b } else { b - 1 };
            assert(r[b] == s[b0]);
        } else {
            let a0 = if a < p { a } else { a - 1 };
            assert(r[a] == s[a0]);
        }
    }
}

/// Adding an id not yet present keeps ids distinct.
pub proof fn lemma_distinct_push(s: Seq<Seq<char>>, x: Seq<char>)
    requires
        distinct(s),
        forall|i: int| 0 <= i < s.len() ==> s[i] != x,
    ensures
        distinct(s.push(x)),
{
}

/// A text made from a literal.
pub fn text(s: &str) -> (r: String)
    ensures
        r@ == s@,
{
    String::from_str(s)
}

pub fn not_found(what: &str) -> (r: AppError)
    ensures
        r is NotFound,
{
    AppError::NotFound(String::from_str(what))
}

pub fn validation(what: &str) -> (r: AppError)
    ensures
        r is Validation,
{
    AppError::Validation(String::from_str(what))
}

pub fn constraint(what: &str) -> (r: AppError)
    ensures
        r is Constraint,
{
    AppError::Constraint(String::from_str(what))
}

/// A copy of an optional text, equal to it.
pub fn copy_opt(o: &Option<String>) -> (r: Option<String>)
    ensures
        r == *o,
{
    match o {
        Some(s) => Some(s.clone()),
        None => None,
    }
}

} // verus!
