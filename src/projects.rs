//! Workspaces and the projects inside them.

use vstd::prelude::*;
use vstd::string::StringExecFns;
use crate::error::{AppError, CmdResult};
use crate::outside::{ascii_ci_eq, eq_ignore_case, fresh_uuid, now_millis, trim_text, trimmed};
use crate::order::{
    lemma_project_insert, lemma_ws_insert, project_insert_pos, project_le, ws_insert_pos, ws_le, };
use crate::state::{
    copy_opt, has_project, has_workspace, lemma_distinct_insert, project_ids, text,
    validation, workspace_ids, ws_named, AppState, Project, Table, Workspace,
};

verus! {

/// What a caller gives to create a workspace.
pub struct CreateWorkspaceInput {
    pub name: String,
    pub kind: String,
}

/// What a caller gives to create a project.
pub struct CreateProjectInput {
    pub workspace_id: String,
    pub name: String,
    pub description: Option<String>,
    pub status: String,
}

/// The kind a workspace has when none is given.
pub fn default_kind() -> (r: String)
    ensures
        r@ == "custom"@,
{
    text("custom")
}

/// The status a project has when none is given.
pub fn default_status() -> (r: String)
    ensures
        r@ == "active"@,
{
    text("active")
}

/// The kinds a workspace may have.
pub open spec fn workspace_kind_ok(kind: Seq<char>) -> bool {
    kind == "personal"@ || kind == "work"@ || kind == "custom"@
}

/// Whether `kind` is a kind a workspace may have.
pub fn is_workspace_kind(kind: &String) -> (r: bool)
    ensures
        r == workspace_kind_ok(kind@),
{
    *kind == text("personal") || *kind == text("work") || *kind == text("custom")
}

/// A workspace with a well-known id: kind `personal` or `work`, named after
/// its kind in any ASCII case.
pub open spec fn well_known(kind: Seq<char>, name: Seq<char>) -> bool {
    ||| kind == "personal"@ && ascii_ci_eq(name, "personal"@)
    ||| kind == "work"@ && ascii_ci_eq(name, "work"@)
}

/// Whether a workspace of kind `kind` with trimmed name `name` has a well-known id.
pub fn is_well_known(kind: &String, name: &String) -> (r: bool)
    ensures
        r == well_known(kind@, name@),
{
    (*kind == text("personal") && eq_ignore_case(name.as_str(), "personal")) || (*kind == text(
        "work",
    ) && eq_ignore_case(name.as_str(), "work"))
}

/// The id of a workspace of the given kind and trimmed name: the well-known
/// ids for `personal` and `work` named after their kind (in any ASCII case),
/// else `ws_` and the fresh id.
pub open spec fn workspace_id_for(kind: Seq<char>, name: Seq<char>, fresh: Seq<char>) -> Seq<char> {
    if kind == "personal"@ && ascii_ci_eq(name, "personal"@) {
        "ws_personal"@
    } else if kind == "work"@ && ascii_ci_eq(name, "work"@) {
        "ws_work"@
    } else {
        "ws_"@ + fresh
    }
}

/// The id of a workspace of kind `kind` whose trimmed name is `name`.
pub fn workspace_id(kind: &String, name: &String, fresh: &String) -> (r: String)
    ensures
        r@ == workspace_id_for(kind@, name@, fresh@),
{
    if *kind == text("personal") && eq_ignore_case(name.as_str(), "personal") {
        text("ws_personal")
    } else if *kind == text("work") && eq_ignore_case(name.as_str(), "work") {
        text("ws_work")
    } else {
        text("ws_").concat(fresh.as_str())
    }
}

/// What `create_workspace` does, from `s0` to `s1`, with fresh id `fresh` at
/// time `now`. A well-known workspace that exists already is left as it is; a
/// fresh id that is taken is refused.
pub open spec fn create_workspace_post(
    s0: AppState,
    input: CreateWorkspaceInput,
    fresh: Seq<char>,
    now: i64,
    s1: AppState,
    r: CmdResult<String>,
) -> bool {
    let name = trimmed(input.name@);
    let id = workspace_id_for(input.kind@, name, fresh);
    &&& s1.clock == s0.clock
    &&& s0.keeps(&s1, set![Table::Workspaces])
    &&& if name.len() == 0 || !workspace_kind_ok(input.kind@) {
        &&& r is Err && r->Err_0 is Validation
        &&& s1.workspaces@ == s0.workspaces@
    } else if has_workspace(s0.workspaces@, id) {
        &&& s1.workspaces@ == s0.workspaces@
        &&& well_known(input.kind@, name) ==> r is Ok && r->Ok_0@ == id
        &&& !well_known(input.kind@, name) ==> r is Err && r->Err_0 is Constraint
    } else {
        &&& r is Ok && r->Ok_0@ == id
        &&& exists|p: int|
            0 <= p < s1.workspaces@.len() && #[trigger] s1.workspaces@.remove(p)
                == s0.workspaces@ && s1.workspaces@[p].id@ == id && s1.workspaces@[p].name@
                == name && s1.workspaces@[p].kind == input.kind && s1.workspaces@[p].created_at
                == now && s1.workspaces@[p].updated_at == now
    }
}

/// The position of the workspace with the given id.
pub fn find_workspace(ws: &Vec<Workspace>, id: &String) -> (r: Option<usize>)
    ensures
        match r {
            Some(i) => i < ws@.len() && ws@[i as int].id@ == id@,
            None => !has_workspace(ws@, id@),
        },
{
    let mut i: usize = 0;
    while i < ws.len()
        invariant
            i <= ws@.len(),
            forall|k: int| 0 <= k < i ==> ws@[k].id@ != id@,
        decreases ws@.len() - i,
    {
        if ws[i].id == *id {
            return Some(i);
        }
        i = i + 1;
    }
    None
}

/// The position of the project with the given id.
pub fn find_project(ps: &Vec<Project>, id: &String) -> (r: Option<usize>)
    ensures
        match r {
            Some(i) => i < ps@.len() && ps@[i as int].id@ == id@,
            None => !has_project(ps@, id@),
        },
{
    let mut i: usize = 0;
    while i < ps.len()
        invariant
            i <= ps@.len(),
            forall|k: int| 0 <= k < i ==> ps@[k].id@ != id@,
        decreases ps@.len() - i,
    {
        if ps[i].id == *id {
            return Some(i);
        }
        i = i + 1;
    }
    None
}

/// Creates a workspace with the trimmed name at time `now`; `fresh` makes the
/// id of one that is not well known. Creating a well-known one again changes nothing.
pub fn create_workspace_at(state: &mut AppState, input: CreateWorkspaceInput, fresh: String, now: i64) -> (r: CmdResult<String>)
    requires
        old(state).wf(),
    ensures
        final(state).wf(),
        create_workspace_post(*old(state), input, fresh@, now, *final(state), r),
{
    let name = trim_text(input.name.as_str());
    if name.as_str().is_empty() {
        return Err(validation("Workspace name is required"));
    }
    if !is_workspace_kind(&input.kind) {
        return Err(validation("Workspace kind must be personal, work or custom"));
    }
    let id = workspace_id(&input.kind, &name, &fresh);
    match find_workspace(&state.workspaces, &id) {
        Some(_) => if is_well_known(&input.kind, &name) {
            Ok(id)
        } else {
            Err(AppError::Constraint(text("a workspace with this id exists")))
        },
        None => {
            let w = Workspace {
                id: id.clone(),
                name,
                kind: input.kind,
                created_at: now,
                updated_at: now,
            };
            let pos = ws_insert_pos(&state.workspaces, &w);
            let ghost s0 = state.workspaces@;
            proof {
                lemma_distinct_insert(workspace_ids(s0), pos as int, id@);
                assert(workspace_ids(s0.insert(pos as int, w)) =~= workspace_ids(s0).insert(
                    pos as int,
                    id@,
                ));
                lemma_ws_insert(s0, pos as int, w);
            }
            state.workspaces.insert(pos, w);
            proof {
                assert(state.workspaces@.remove(pos as int) =~= s0);
                assert forall|i: int| 0 <= i < state.projects@.len() implies ws_named(
                    state.workspaces@,
                    (#[trigger] state.projects@[i]).workspace_id@,
                    state.projects@[i].workspace_name@,
                ) by {
                    let j = choose|j: int|
                        0 <= j < s0.len() && (#[trigger] s0[j]).id@
                            == state.projects@[i].workspace_id@ && s0[j].name@
                            == state.projects@[i].workspace_name@;
                    let j1 = if j < pos { j } else { j + 1 };
                    assert(state.workspaces@[j1] == s0[j]);
                }
            }
            Ok(id)
        },
    }
}

/// Creates a workspace with the trimmed name, dated now; returns its id.
pub fn create_workspace(state: &mut AppState, input: CreateWorkspaceInput) -> (r: CmdResult<String>)
    requires
        old(state).wf(),
    ensures
        final(state).wf(),
        exists|fresh: Seq<char>, now: i64|
            create_workspace_post(*old(state), input, fresh, now, *final(state), r),
{
    let fresh = fresh_uuid();
    let now = now_millis();
    create_workspace_at(state, input, fresh, now)
}

/// The states a project may be in.
pub open spec fn project_status_ok(status: Seq<char>) -> bool {
    status == "active"@ || status == "paused"@ || status == "archived"@
}

/// Whether `status` is a state a project may be in.
pub fn is_project_status(status: &String) -> (r: bool)
    ensures
        r == project_status_ok(status@),
{
    *status == text("active") || *status == text("paused") || *status == text("archived")
}

/// What `create_project` does, from `s0` to `s1`, with fresh id `fresh` at time `now`.
pub open spec fn create_project_post(
    s0: AppState,
    input: CreateProjectInput,
    fresh: Seq<char>,
    now: i64,
    s1: AppState,
    r: CmdResult<String>,
) -> bool {
    let name = trimmed(input.name@);
    let id = "prj_"@ + fresh;
    &&& s1.clock == s0.clock
    &&& if name.len() == 0 || !project_status_ok(input.status@) || !has_workspace(
        s0.workspaces@,
        input.workspace_id@,
    ) {
        &&& r is Err && r->Err_0 is Validation
        &&& s0.same(&s1)
    } else if has_project(s0.projects@, id) {
        &&& r is Err && r->Err_0 is Constraint
        &&& s0.same(&s1)
    } else {
        &&& r is Ok && r->Ok_0@ == id
        &&& s0.keeps(&s1, set![Table::Projects])
        &&& exists|p: int|
            0 <= p < s1.projects@.len() && #[trigger] s1.projects@.remove(p) == s0.projects@
                && s1.projects@[p].id@ == id && s1.projects@[p].workspace_id
                == input.workspace_id && s1.projects@[p].name@ == name
                && s1.projects@[p].description == input.description && s1.projects@[p].status
                == input.status && s1.projects@[p].created_at == now && s1.projects@[p].updated_at
                == now
    }
}

/// Creates a project in an existing workspace at time `now`, with id `prj_`
/// and `fresh`.
pub fn create_project_at(state: &mut AppState, input: CreateProjectInput, fresh: String, now: i64) -> (r: CmdResult<String>)
    requires
        old(state).wf(),
    ensures
        final(state).wf(),
        create_project_post(*old(state), input, fresh@, now, *final(state), r),
{
    let name = trim_text(input.name.as_str());
    if name.as_str().is_empty() {
        return Err(validation("Project name is required"));
    }
    if !is_project_status(&input.status) {
        return Err(validation("Project status must be active, paused or archived"));
    }
    let w = match find_workspace(&state.workspaces, &input.workspace_id) {
        None => return Err(validation("Workspace not found for workspace_id")),
        Some(w) => w,
    };
    let id = text("prj_").concat(fresh.as_str());
    if find_project(&state.projects, &id).is_some() {
        return Err(AppError::Constraint(text("a project with this id exists")));
    }
    let p = Project {
        id: id.clone(),
        workspace_id: input.workspace_id,
        workspace_name: state.workspaces[w].name.clone(),
        name,
        description: input.description,
        status: input.status,
        created_at: now,
        updated_at: now,
    };
    let pos = project_insert_pos(&state.projects, &p);
    let ghost s0 = state.projects@;
    proof {
        lemma_distinct_insert(project_ids(s0), pos as int, id@);
        assert(project_ids(s0.insert(pos as int, p)) =~= project_ids(s0).insert(pos as int, id@));
        lemma_project_insert(s0, pos as int, p);
        assert forall|id2: Seq<char>| has_project(s0, id2) implies #[trigger] has_project(
            s0.insert(pos as int, p),
            id2,
        ) by {
            let j = choose|j: int| 0 <= j < s0.len() && (#[trigger] s0[j]).id@ == id2;
            let j1 = if j < pos { j } else { j + 1 };
            assert(s0.insert(pos as int, p)[j1] == s0[j]);
        }
    }
    state.projects.insert(pos, p);
    proof {
        assert(state.projects@.remove(pos as int) =~= s0);
        assert forall|i: int| 0 <= i < state.projects@.len() implies ws_named(
            state.workspaces@,
            (#[trigger] state.projects@[i]).workspace_id@,
            state.projects@[i].workspace_name@,
        ) by {
            if i != pos {
                let i0 = if i < pos { i } else { i - 1 };
                assert(state.projects@[i] == s0[i0]);
            }
        }
    }
    Ok(id)
}

/// Creates a project in an existing workspace, dated now; returns its id. A
/// missing workspace is refused before anything is written.
pub fn create_project(state: &mut AppState, input: CreateProjectInput) -> (r: CmdResult<String>)
    requires
        old(state).wf(),
    ensures
        final(state).wf(),
        exists|fresh: Seq<char>, now: i64|
            create_project_post(*old(state), input, fresh, now, *final(state), r),
{
    let fresh = fresh_uuid();
    let now = now_millis();
    create_project_at(state, input, fresh, now)
}

/// A workspace as listed.
pub struct WorkspaceRow {
    pub id: String,
    pub name: String,
    pub kind: String,
    pub created_at: i64,
    pub updated_at: i64,
}

/// A project as listed, with the name of its workspace.
pub struct ProjectRow {
    pub id: String,
    pub name: String,
    pub description: Option<String>,
    pub status: String,
    pub workspace_id: String,
    pub workspace_name: String,
    pub created_at: i64,
    pub updated_at: i64,
}

pub open spec fn workspace_row(w: Workspace) -> WorkspaceRow {
    WorkspaceRow {
        id: w.id,
        name: w.name,
        kind: w.kind,
        created_at: w.created_at,
        updated_at: w.updated_at,
    }
}

pub open spec fn project_row(p: Project) -> ProjectRow {
    ProjectRow {
        id: p.id,
        name: p.name,
        description: p.description,
        status: p.status,
        workspace_id: p.workspace_id,
        workspace_name: p.workspace_name,
        created_at: p.created_at,
        updated_at: p.updated_at,
    }
}

/// Every workspace: `personal` ones, then `work` ones, then the rest, each
/// group by name.
pub fn list_workspaces(state: &AppState) -> (r: CmdResult<Vec<WorkspaceRow>>)
    requires
        state.wf(),
    ensures
        r is Ok,
        r->Ok_0@ == state.workspaces@.map_values(|w: Workspace| workspace_row(w)),
        forall|i: int, j: int|
            0 <= i < j < state.workspaces@.len() ==> ws_le(
                #[trigger] state.workspaces@[i],
                #[trigger] state.workspaces@[j],
            ),
{
    let mut out: Vec<WorkspaceRow> = Vec::new();
    let mut k: usize = 0;
    while k < state.workspaces.len()
        invariant
            k <= state.workspaces@.len(),
            out@ == state.workspaces@.subrange(0, k as int).map_values(
                |w: Workspace| workspace_row(w),
            ),
        decreases state.workspaces@.len() - k,
    {
        let w = &state.workspaces[k];
        out.push(
            WorkspaceRow {
                id: w.id.clone(),
                name: w.name.clone(),
                kind: w.kind.clone(),
                created_at: w.created_at,
                updated_at: w.updated_at,
            },
        );
        k = k + 1;
        proof {
            assert(out@ =~= state.workspaces@.subrange(0, k as int).map_values(
                |w: Workspace| workspace_row(w),
            ));
        }
    }
    proof {
        assert(state.workspaces@.subrange(0, k as int) =~= state.workspaces@);
    }
    Ok(out)
}

/// The positions of the first `k` projects that are in workspace `ws`, where one is given.
pub open spec fn projects_in(s: Seq<Project>, ws: Option<String>, k: int) -> Seq<int>
    decreases k,
{
    if k <= 0 {
        Seq::empty()
    } else {
        let rest = projects_in(s, ws, k - 1);
        let j = k - 1;
        if match ws {
            Some(w) => s[j].workspace_id@ == w@,
            None => true,
        } {
            rest.push(j)
        } else {
            rest
        }
    }
}

/// The projects, of one workspace where it is given, by workspace name and
/// then by name.
pub fn list_projects(state: &AppState, workspace_id: Option<String>) -> (r: CmdResult<Vec<ProjectRow>>)
    requires
        state.wf(),
    ensures
        r is Ok,
        r->Ok_0@ == projects_in(state.projects@, workspace_id, state.projects@.len() as int).map_values(
            |i: int| project_row(state.projects@[i]),
        ),
        forall|i: int, j: int|
            0 <= i < j < state.projects@.len() ==> project_le(
                #[trigger] state.projects@[i],
                #[trigger] state.projects@[j],
            ),
{
    let mut out: Vec<ProjectRow> = Vec::new();
    let mut k: usize = 0;
    while k < state.projects.len()
        invariant
            k <= state.projects@.len(),
            out@ == projects_in(state.projects@, workspace_id, k as int).map_values(
                |i: int| project_row(state.projects@[i]),
            ),
        decreases state.projects@.len() - k,
    {
        let p = &state.projects[k];
        let keep = match &workspace_id {
            Some(w) => p.workspace_id == *w,
            None => true,
        };
        if keep {
            out.push(
                ProjectRow {
                    id: p.id.clone(),
                    name: p.name.clone(),
                    description: copy_opt(&p.description),
                    status: p.status.clone(),
                    workspace_id: p.workspace_id.clone(),
                    workspace_name: p.workspace_name.clone(),
                    created_at: p.created_at,
                    updated_at: p.updated_at,
                },
            );
        }
        k = k + 1;
        proof {
            assert(out@ =~= projects_in(state.projects@, workspace_id, k as int).map_values(
                |i: int| project_row(state.projects@[i]),
            ));
        }
    }
    Ok(out)
}

} // verus!
