//! Properties of the store that relate several operations or hold of every
//! state, each proved from the contracts of the operations.

use vstd::prelude::*;
use crate::docs::{
    add_doc_post, latest_version, lemma_version_push, patched_doc, rebodied_doc,
    record_attachment_post, save_attachment_post, update_doc_body_post, version_count,
    AttachmentFile, DocInput, SaveDocAttachmentInput, UpdateDocBodyInput, UpdateDocMetaInput,
};
use crate::error::CmdResult;
use crate::ideas::{
    idea_hits, idea_selected, patched_idea, task_from_idea_post, IdeaToTaskInput, UpdateIdeaInput,
};
use crate::outside::{ascii_ci_eq, base64_decoded, lowercased, trim_end, trim_start, trimmed};
use crate::projects::{
    create_project_post, create_workspace_post, CreateProjectInput, CreateWorkspaceInput,
};
use crate::state::{
    doc_stamps, has_pair, has_workspace, idea_stamps, stamp_after, task_stamps, workspace_ids,
    AppState, Doc, Idea, Task,
};
use crate::tasks::{patched_task, restatused_task, TaskStatus, UpdateTaskInput};

verus! {

/// In every store that the operations keep, each task, idea and document was
/// updated no earlier than it was created.
pub proof fn law_updated_not_before_created(s: AppState)
    requires
        s.wf(),
    ensures
        forall|i: int| 0 <= i < s.tasks@.len() ==> (#[trigger] s.tasks@[i]).created_at <= s.tasks@[i].updated_at,
        forall|i: int| 0 <= i < s.ideas@.len() ==> (#[trigger] s.ideas@[i]).created_at <= s.ideas@[i].updated_at,
        forall|i: int| 0 <= i < s.docs@.len() ==> (#[trigger] s.docs@[i]).created_at <= s.docs@[i].updated_at,
{
}

/// Every update stamps the row strictly later than it was stamped before, and
/// keeps its creation time: a task patch or status change, an idea patch, and
/// a document body or metadata update.
pub proof fn law_update_moves_stamp_forward(
    s: AppState,
    i: int,
    now: i64,
    stamp: i64,
    tp: UpdateTaskInput,
    status: TaskStatus,
    ip: UpdateIdeaInput,
    dp: UpdateDocMetaInput,
    body: String,
)
    requires
        s.wf(),
        stamp_after(s.clock, now) == Some(stamp),
    ensures
        0 <= i < s.tasks@.len() ==> patched_task(s.tasks@[i], tp, stamp).updated_at > s.tasks@[i].updated_at
            && patched_task(s.tasks@[i], tp, stamp).created_at == s.tasks@[i].created_at,
        0 <= i < s.tasks@.len() ==> restatused_task(s.tasks@[i], status, stamp).updated_at > s.tasks@[i].updated_at
            && restatused_task(s.tasks@[i], status, stamp).created_at == s.tasks@[i].created_at,
        0 <= i < s.ideas@.len() ==> patched_idea(s.ideas@[i], ip, stamp).updated_at > s.ideas@[i].updated_at
            && patched_idea(s.ideas@[i], ip, stamp).created_at == s.ideas@[i].created_at,
        0 <= i < s.docs@.len() ==> patched_doc(s.docs@[i], dp, stamp).updated_at > s.docs@[i].updated_at
            && patched_doc(s.docs@[i], dp, stamp).created_at == s.docs@[i].created_at,
        0 <= i < s.docs@.len() ==> rebodied_doc(s.docs@[i], body, stamp).updated_at > s.docs@[i].updated_at
            && rebodied_doc(s.docs@[i], body, stamp).created_at == s.docs@[i].created_at,
{
    if 0 <= i < s.tasks@.len() {
        assert(task_stamps(s.tasks@)[i] == s.tasks@[i].updated_at);
    }
    if 0 <= i < s.ideas@.len() {
        assert(idea_stamps(s.ideas@)[i] == s.ideas@[i].updated_at);
    }
    if 0 <= i < s.docs@.len() {
        assert(doc_stamps(s.docs@)[i] == s.docs@[i].updated_at);
    }
}

/// A task patch with no field set leaves the task as it was but for its stamp.
pub proof fn law_empty_task_patch(cur: Task, p: UpdateTaskInput, stamp: i64)
    requires
        p.name is None,
        p.category is None,
        p.short_summary is None,
        p.description is None,
        p.status is None,
        p.current_stage is None,
        p.start_at is None,
        p.end_est_at is None,
    ensures
        patched_task(cur, p, stamp) == (Task { updated_at: stamp, ..cur }),
{
}

/// An idea patch with no field set leaves the idea as it was but for its stamp.
pub proof fn law_empty_idea_patch(cur: Idea, p: UpdateIdeaInput, stamp: i64)
    requires
        p.title is None,
        p.summary is None,
        p.status is None,
        p.priority is None,
        p.effort_pts is None,
        p.impact_pts is None,
    ensures
        patched_idea(cur, p, stamp) == (Idea { updated_at: stamp, ..cur }),
{
}

/// A metadata patch with no field set leaves the document as it was but for its stamp.
pub proof fn law_empty_doc_patch(cur: Doc, p: UpdateDocMetaInput, stamp: i64)
    requires
        p.title is None,
        p.slug is None,
        p.cover_path is None,
        p.status is None,
    ensures
        patched_doc(cur, p, stamp) == (Doc { updated_at: stamp, ..cur }),
{
}

/// Creating the workspace "Personal" of kind `personal` twice gives the same
/// well-known id both times, and the second call adds no row: one row holds
/// that id.
pub proof fn law_well_known_workspace_once(
    s0: AppState,
    input: CreateWorkspaceInput,
    fresh1: Seq<char>,
    now1: i64,
    s1: AppState,
    r1: CmdResult<String>,
    fresh2: Seq<char>,
    now2: i64,
    s2: AppState,
    r2: CmdResult<String>,
)
    requires
        s0.wf(),
        s1.wf(),
        create_workspace_post(s0, input, fresh1, now1, s1, r1),
        create_workspace_post(s1, input, fresh2, now2, s2, r2),
        input.kind@ == "personal"@,
        input.name@ == "Personal"@,
    ensures
        r1 is Ok && r2 is Ok,
        r1->Ok_0@ == "ws_personal"@,
        r2->Ok_0@ == r1->Ok_0@,
        s2.workspaces@ == s1.workspaces@,
        has_workspace(s2.workspaces@, "ws_personal"@),
        forall|i: int, j: int|
            0 <= i < s2.workspaces@.len() && 0 <= j < s2.workspaces@.len()
                && (#[trigger] s2.workspaces@[i]).id@ == "ws_personal"@
                && (#[trigger] s2.workspaces@[j]).id@ == "ws_personal"@ ==> i == j,
{
    let id = "ws_personal"@;
    reveal_strlit("personal");
    reveal_strlit("Personal");
    assert(trim_start(input.name@) == input.name@);
    assert(trim_end(input.name@) == input.name@);
    assert(trimmed(input.name@) == "Personal"@);
    assert(ascii_ci_eq(trimmed(input.name@), "personal"@));
    assert(crate::projects::well_known(input.kind@, trimmed(input.name@)));
    assert(crate::projects::workspace_id_for(input.kind@, trimmed(input.name@), fresh1) == id);
    assert(crate::projects::workspace_id_for(input.kind@, trimmed(input.name@), fresh2) == id);
    if !has_workspace(s0.workspaces@, id) {
        let p = choose|p: int|
            0 <= p < s1.workspaces@.len() && #[trigger] s1.workspaces@.remove(p)
                == s0.workspaces@ && s1.workspaces@[p].id@ == id && s1.workspaces@[p].name@
                == trimmed(input.name@) && s1.workspaces@[p].kind == input.kind
                && s1.workspaces@[p].created_at == now1 && s1.workspaces@[p].updated_at == now1;
        assert(s1.workspaces@[p].id@ == id);
    }
    assert(has_workspace(s1.workspaces@, id));
    assert(s2.workspaces@ == s1.workspaces@);
    assert forall|i: int, j: int|
        0 <= i < s2.workspaces@.len() && 0 <= j < s2.workspaces@.len()
            && (#[trigger] s2.workspaces@[i]).id@ == id && (#[trigger] s2.workspaces@[j]).id@
            == id implies i == j by {
        assert(workspace_ids(s2.workspaces@)[i] == s2.workspaces@[i].id@);
        assert(workspace_ids(s2.workspaces@)[j] == s2.workspaces@[j].id@);
    }
}

/// Turning an idea into a task puts the task in the idea's project and that
/// project's workspace, and links idea and task; where it fails, neither the
/// task nor the link is written.
pub proof fn law_task_from_idea(
    s0: AppState,
    input: IdeaToTaskInput,
    task_id: String,
    now: i64,
    s1: AppState,
    r: CmdResult<String>,
)
    requires
        s0.wf(),
        task_from_idea_post(s0, input, task_id, now, s1, r),
    ensures
        r is Ok ==> exists|i: int, j: int|
            0 <= i < s0.ideas@.len() && 0 <= j < s0.projects@.len()
                && (#[trigger] s0.ideas@[i]).id@ == input.idea_id@
                && (#[trigger] s0.projects@[j]).id@ == s0.ideas@[i].project_id@
                && s1.tasks@.last().id == task_id
                && s1.tasks@.last().project_id == Some(s0.projects@[j].id)
                && s1.tasks@.last().workspace_id == Some(s0.projects@[j].workspace_id)
                && has_workspace(s0.workspaces@, s0.projects@[j].workspace_id@)
                && s1.tasks@.last().origin_idea_id == Some(s0.ideas@[i].id)
                && has_pair(s1.idea_task_map@, s0.ideas@[i].id@, task_id@),
        r is Err ==> s1.tasks@ == s0.tasks@ && s1.idea_task_map@ == s0.idea_task_map@,
{
    if r is Ok {
        let (i, j) = choose|i: int, j: int|
            0 <= i < s0.ideas@.len() && 0 <= j < s0.projects@.len() && (#[trigger] s0.ideas@[i]).id@
                == input.idea_id@ && (#[trigger] s0.projects@[j]).id@ == s0.ideas@[i].project_id@
                && s1.tasks@ == s0.tasks@.push(
                crate::ideas::task_from_idea(s0.ideas@[i], s0.projects@[j], input, task_id, s1.clock),
            ) && s1.idea_task_map@ == crate::ideas::linked(s0.idea_task_map@, s0.ideas@[i].id, task_id);
        let m = s1.idea_task_map@;
        if !has_pair(s0.idea_task_map@, s0.ideas@[i].id@, task_id@) {
            assert(m[m.len() - 1].left == s0.ideas@[i].id);
        }
        assert(has_pair(m, s0.ideas@[i].id@, task_id@));
        let k = choose|k: int| 0 <= k < s0.workspaces@.len() && (#[trigger] s0.workspaces@[k]).id@
            == s0.projects@[j].workspace_id@ && s0.workspaces@[k].name@ == s0.projects@[j].workspace_name@;
        assert(has_workspace(s0.workspaces@, s0.projects@[j].workspace_id@));
    }
}

/// Creating a document adds exactly one version of it, and the latest version
/// holds its body and the newest stamp (in a well-formed store every version
/// is stamped no later than the clock).
pub proof fn law_add_doc_versions(
    s0: AppState,
    input: DocInput,
    id: String,
    version_id: String,
    now: i64,
    s1: AppState,
    r: CmdResult<String>,
)
    requires
        add_doc_post(s0, input, id, version_id, now, s1, r),
        r is Ok,
    ensures
        version_count(s1.doc_versions@, id@) == version_count(s0.doc_versions@, id@) + 1,
        latest_version(s1.doc_versions@, id@) matches Some(v) && v.body_md == s1.docs@.last().body_md
            && v.created_at == s1.clock,
        s1.docs@.last().id == id,
{
    lemma_version_push(
        s0.doc_versions@,
        crate::state::DocVersion { id: version_id, doc_id: id, body_md: input.body_md, created_at: s1.clock },
    );
}

/// Updating a document's body adds exactly one version of it, and the latest
/// version holds its new body and the newest stamp.
pub proof fn law_update_doc_body_versions(
    s0: AppState,
    input: UpdateDocBodyInput,
    version_id: String,
    now: i64,
    s1: AppState,
    r: CmdResult<()>,
)
    requires
        update_doc_body_post(s0, input, version_id, now, s1, r),
        r is Ok,
    ensures
        version_count(s1.doc_versions@, input.id@) == version_count(s0.doc_versions@, input.id@) + 1,
        latest_version(s1.doc_versions@, input.id@) matches Some(v) && v.body_md
            == s1.docs@.last().body_md && v.created_at == s1.clock,
        s1.docs@.last().id@ == input.id@,
{
    let i = choose|i: int| 0 <= i < s0.docs@.len() && (#[trigger] s0.docs@[i]).id@ == input.id@;
    lemma_version_push(
        s0.doc_versions@,
        crate::state::DocVersion {
            id: version_id,
            doc_id: s0.docs@[i].id,
            body_md: input.body_md,
            created_at: s1.clock,
        },
    );
}

/// Facts about the positions that an idea search picks among the last `k` ideas.
proof fn lemma_idea_hits(s: Seq<Idea>, qf: Seq<char>, pid: Option<String>, k: int)
    requires
        0 <= k <= s.len(),
    ensures
        forall|m: int| 0 <= m < idea_hits(s, qf, pid, k).len() ==> s.len() - k <= #[trigger] idea_hits(s, qf, pid, k)[m] < s.len()
            && idea_selected(s[idea_hits(s, qf, pid, k)[m]], qf, pid),
        forall|a: int, b: int| 0 <= a < b < idea_hits(s, qf, pid, k).len() ==> #[trigger] idea_hits(s, qf, pid, k)[a] > #[trigger] idea_hits(s, qf, pid, k)[b],
        forall|j: int| s.len() - k <= j < s.len() && idea_selected(s[j], qf, pid) ==> idea_hits(s, qf, pid, k).contains(j),
    decreases k,
{
    if k > 0 {
        lemma_idea_hits(s, qf, pid, k - 1);
        let rest = idea_hits(s, qf, pid, k - 1);
        let j0 = s.len() - k;
        if idea_selected(s[j0], qf, pid) {
            assert(idea_hits(s, qf, pid, k) == rest.push(j0));
            assert forall|j: int| s.len() - k <= j < s.len() && idea_selected(s[j], qf, pid) implies idea_hits(s, qf, pid, k).contains(j) by {
                if j == j0 {
                    assert(rest.push(j0)[rest.len() as int] == j0);
                } else {
                    assert(rest.contains(j));
                    let m = choose|m: int| 0 <= m < rest.len() && rest[m] == j;
                    assert(rest.push(j0)[m] == j);
                }
            }
        } else {
            assert forall|j: int| s.len() - k <= j < s.len() && idea_selected(s[j], qf, pid) implies idea_hits(s, qf, pid, k).contains(j) by {
                assert(j != j0);
                assert(rest.contains(j));
            }
        }
    }
}

/// A search of the ideas of project `pid` for `q` gives exactly the ideas of
/// that project whose folded title or summary holds the folded query, each
/// once, most recently updated first.
pub proof fn law_search_ideas(s: AppState, q: Seq<char>, pid: String)
    requires
        s.wf(),
    ensures
        ({
            let h = idea_hits(s.ideas@, lowercased(q), Some(pid), s.ideas@.len() as int);
            &&& forall|m: int| 0 <= m < h.len() ==> 0 <= #[trigger] h[m] < s.ideas@.len()
                && s.ideas@[h[m]].project_id@ == pid@
                && idea_selected(s.ideas@[h[m]], lowercased(q), Some(pid))
            &&& forall|a: int, b: int| 0 <= a < b < h.len() ==> s.ideas@[#[trigger] h[a]].updated_at
                > s.ideas@[#[trigger] h[b]].updated_at
            &&& forall|j: int| 0 <= j < s.ideas@.len() && idea_selected(s.ideas@[j], lowercased(q), Some(pid))
                ==> h.contains(j)
        }),
{
    let n = s.ideas@.len() as int;
    let qf = lowercased(q);
    lemma_idea_hits(s.ideas@, qf, Some(pid), n);
    let h = idea_hits(s.ideas@, qf, Some(pid), n);
    assert forall|a: int, b: int| 0 <= a < b < h.len() implies s.ideas@[#[trigger] h[a]].updated_at
        > s.ideas@[#[trigger] h[b]].updated_at by {
        assert(idea_stamps(s.ideas@)[h[a]] == s.ideas@[h[a]].updated_at);
        assert(idea_stamps(s.ideas@)[h[b]] == s.ideas@[h[b]].updated_at);
    }
}

/// Saving an attachment and then recording it yields bytes that are exactly
/// what the base64 text decodes to, and exactly one new row, which points at
/// the file that those bytes go to.
pub proof fn law_attachment_saved_once(
    s0: AppState,
    input: SaveDocAttachmentInput,
    r0: CmdResult<AttachmentFile>,
    id: String,
    now: i64,
    s1: AppState,
    r1: CmdResult<String>,
)
    requires
        save_attachment_post(s0, input, r0),
        r0 is Ok,
        record_attachment_post(s0, input, r0->Ok_0.path, id, now, s1, r1),
    ensures
        base64_decoded(input.bytes_base64@) == Some(r0->Ok_0.bytes@),
        r1 is Ok,
        r1->Ok_0@ == r0->Ok_0.path@,
        s1.doc_attachments@.len() == s0.doc_attachments@.len() + 1,
        s1.doc_attachments@.drop_last() == s0.doc_attachments@,
        s1.doc_attachments@.last().path == r0->Ok_0.path,
        s1.doc_attachments@.last().doc_id == input.doc_id,
{
    assert(s1.doc_attachments@.drop_last() =~= s0.doc_attachments@);
}

/// Creating a project in a workspace that does not exist fails with a
/// validation error and writes nothing.
pub proof fn law_project_needs_workspace(
    s0: AppState,
    input: CreateProjectInput,
    fresh: Seq<char>,
    now: i64,
    s1: AppState,
    r: CmdResult<String>,
)
    requires
        create_project_post(s0, input, fresh, now, s1, r),
        !has_workspace(s0.workspaces@, input.workspace_id@),
    ensures
        r is Err && r->Err_0 is Validation,
        s0.same(&s1),
{
}

} // verus!
