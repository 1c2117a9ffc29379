//! Documents: creation with a first version, listing, lookup, body updates that
//! each add a version, metadata patches, search, and attachments.

use vstd::prelude::*;
use vstd::string::StringExecFns;
use crate::error::CmdResult;
use crate::ideas::{mime_or_empty, mime_text};
use crate::outside::{
    base64_decoded, decode_base64, fresh_uuid, lowercased, now_millis,
};
use crate::projects::find_project;
use crate::search::{fold_query, folded_match, text_matches};
use crate::state::{
    constraint, copy_opt, doc_ids, doc_stamps, has_doc, has_project, idea_stamps,
    lemma_distinct_push, lemma_distinct_remove_push, lemma_rising_later, lemma_rising_push,
    lemma_rising_remove_push, next_stamp, not_found, stamp_after, task_stamps, text,
    validation, AppState, Doc, DocAttachment, DocVersion, Table, version_stamps, lemma_doc_push,
    lemma_doc_replace,
};
pub use crate::state::DocStatus;

verus! {

impl DocStatus {
    /// The stored name of the status.
    pub open spec fn name(&self) -> Seq<char> {
        match self {
            DocStatus::Draft => "draft"@,
            DocStatus::InReview => "in_review"@,
            DocStatus::Published => "published"@,
        }
    }

    /// The status with the given stored name; none for an unknown name.
    pub fn from_name(s: &String) -> (r: Option<DocStatus>)
        ensures
            match r {
                Some(st) => st.name() == s@,
                None => forall|st: DocStatus| #[trigger] st.name() != s@,
            },
    {
        if *s == text("draft") {
            Some(DocStatus::Draft)
        } else if *s == text("in_review") {
            Some(DocStatus::InReview)
        } else if *s == text("published") {
            Some(DocStatus::Published)
        } else {
            None
        }
    }

    /// The stored name of the status.
    pub fn to_string(&self) -> (r: String)
        ensures
            r@ == self.name(),
    {
        match self {
            DocStatus::Draft => text("draft"),
            DocStatus::InReview => text("in_review"),
            DocStatus::Published => text("published"),
        }
    }
}

/// What a caller gives to create a document; the status defaults to draft.
pub struct DocInput {
    pub project_id: String,
    pub title: String,
    pub slug: Option<String>,
    pub body_md: String,
    pub cover_path: Option<String>,
    pub status: Option<DocStatus>,
}

/// A document as listed.
pub struct DocRow {
    pub id: String,
    pub project_id: String,
    pub title: String,
    pub slug: Option<String>,
    pub status: DocStatus,
    pub updated_at: i64,
}

/// A document in full; an empty stored cover reads as none.
pub struct DocDetail {
    pub id: String,
    pub project_id: String,
    pub title: String,
    pub slug: Option<String>,
    pub body_md: String,
    pub body_html: String,
    pub cover_path: Option<String>,
    pub status: DocStatus,
    pub created_at: i64,
    pub updated_at: i64,
}

/// A new body for a document.
pub struct UpdateDocBodyInput {
    pub id: String,
    pub body_md: String,
}

/// A partial update of a document's metadata.
pub struct UpdateDocMetaInput {
    pub id: String,
    pub title: Option<String>,
    pub slug: Option<String>,
    pub cover_path: Option<String>,
    pub status: Option<DocStatus>,
}

/// A file to attach to a document, as base64 text.
pub struct SaveDocAttachmentInput {
    pub doc_id: String,
    pub filename: String,
    pub bytes_base64: String,
    pub mime: Option<String>,
}

/// Where an attachment goes and what it holds; the caller writes `bytes` to
/// `path`, creating `dir` first.
pub struct AttachmentFile {
    pub dir: String,
    pub path: String,
    pub bytes: Vec<u8>,
}

/// How many versions of document `id` the history holds.
pub open spec fn version_count(s: Seq<DocVersion>, id: Seq<char>) -> nat
    decreases s.len(),
{
    if s.len() == 0 {
        0
    } else {
        version_count(s.drop_last(), id) + if s.last().doc_id@ == id {
            1nat
        } else {
            0nat
        }
    }
}

/// The latest version of document `id` in the history.
pub open spec fn latest_version(s: Seq<DocVersion>, id: Seq<char>) -> Option<DocVersion>
    decreases s.len(),
{
    if s.len() == 0 {
        None
    } else if s.last().doc_id@ == id {
        Some(s.last())
    } else {
        latest_version(s.drop_last(), id)
    }
}

/// The document that `add_doc` stores.
pub open spec fn new_doc(input: DocInput, id: String, stamp: i64) -> Doc {
    Doc {
        id,
        project_id: input.project_id,
        title: input.title,
        slug: input.slug,
        body_md: input.body_md,
        body_html: input.body_md,
        cover_path: input.cover_path,
        status: match input.status {
            Some(s) => s,
            None => DocStatus::Draft,
        },
        created_at: stamp,
        updated_at: stamp,
    }
}

/// Pushing a version of document `id` counts once more and becomes the latest.
pub proof fn lemma_version_push(s: Seq<DocVersion>, v: DocVersion)
    ensures
        version_count(s.push(v), v.doc_id@) == version_count(s, v.doc_id@) + 1,
        latest_version(s.push(v), v.doc_id@) == Some(v),
{
    assert(s.push(v).drop_last() =~= s);
}

/// The cover as read back: an empty one reads as none.
pub open spec fn cover_of(c: Option<String>) -> Option<String> {
    match c {
        Some(s) => if s@.len() == 0 {
            None
        } else {
            Some(s)
        },
        None => None,
    }
}

/// The document after a new body at time stamp `stamp`; the cache follows the body.
pub open spec fn rebodied_doc(cur: Doc, body: String, stamp: i64) -> Doc {
    Doc { body_md: body, body_html: body, updated_at: stamp, ..cur }
}

/// The document after a metadata patch at time stamp `stamp`.
pub open spec fn patched_doc(cur: Doc, p: UpdateDocMetaInput, stamp: i64) -> Doc {
    Doc {
        title: match p.title {
            Some(v) => v,
            None => cur.title,
        },
        slug: match p.slug {
            Some(v) => Some(v),
            None => cur.slug,
        },
        cover_path: match p.cover_path {
            Some(v) => Some(v),
            None => cur.cover_path,
        },
        status: match p.status {
            Some(v) => v,
            None => cur.status,
        },
        updated_at: stamp,
        ..cur
    }
}

pub open spec fn doc_row(t: Doc) -> DocRow {
    DocRow {
        id: t.id,
        project_id: t.project_id,
        title: t.title,
        slug: t.slug,
        status: t.status,
        updated_at: t.updated_at,
    }
}

pub open spec fn doc_detail(t: Doc) -> DocDetail {
    DocDetail {
        id: t.id,
        project_id: t.project_id,
        title: t.title,
        slug: t.slug,
        body_md: t.body_md,
        body_html: t.body_html,
        cover_path: cover_of(t.cover_path),
        status: t.status,
        created_at: t.created_at,
        updated_at: t.updated_at,
    }
}

/// The position of the document with the given id.
pub fn find_doc(docs: &Vec<Doc>, id: &String) -> (r: Option<usize>)
    ensures
        match r {
            Some(i) => i < docs@.len() && docs@[i as int].id@ == id@,
            None => !has_doc(docs@, id@),
        },
{
    let mut i: usize = 0;
    while i < docs.len()
        invariant
            i <= docs@.len(),
            forall|k: int| 0 <= k < i ==> docs@[k].id@ != id@,
        decreases docs@.len() - i,
    {
        if docs[i].id == *id {
            return Some(i);
        }
        i = i + 1;
    }
    None
}

/// In a well-formed store the document at `i` is the only one with its id,
/// and its stamps are at most the clock.
proof fn lemma_doc_at(state: &AppState, i: int)
    requires
        state.wf(),
        0 <= i < state.docs@.len(),
    ensures
        state.docs@[i].created_at <= state.docs@[i].updated_at <= state.clock,
        forall|j: int|
            0 <= j < state.docs@.len() && (#[trigger] state.docs@[j]).id@ == state.docs@[i].id@
                ==> j == i,
{
    assert(doc_stamps(state.docs@)[i] == state.docs@[i].updated_at);
    assert forall|j: int|
        0 <= j < state.docs@.len() && (#[trigger] state.docs@[j]).id@
            == state.docs@[i].id@ implies j == i by {
        assert(doc_ids(state.docs@)[i] == state.docs@[i].id@);
        assert(doc_ids(state.docs@)[j] == state.docs@[j].id@);
    }
}

/// A copy of a document, equal to it.
fn clone_doc(t: &Doc) -> (r: Doc)
    ensures
        r == *t,
{
    Doc {
        id: t.id.clone(),
        project_id: t.project_id.clone(),
        title: t.title.clone(),
        slug: copy_opt(&t.slug),
        body_md: t.body_md.clone(),
        body_html: t.body_html.clone(),
        cover_path: copy_opt(&t.cover_path),
        status: t.status,
        created_at: t.created_at,
        updated_at: t.updated_at,
    }
}

/// Puts `t` in place of the document at `i`, moving it to the end, as the most
/// recently updated one, and advances the clock to its stamp.
fn replace_doc(state: &mut AppState, i: usize, t: Doc)
    requires
        old(state).wf(),
        i < old(state).docs@.len(),
        t.id@ == old(state).docs@[i as int].id@,
        t.project_id == old(state).docs@[i as int].project_id,
        t.updated_at > old(state).clock,
        t.created_at <= t.updated_at,
    ensures
        final(state).wf(),
        final(state).docs@ == old(state).docs@.remove(i as int).push(t),
        final(state).clock == t.updated_at,
        old(state).keeps(&*final(state), set![Table::Docs]),
{
    let ghost s0 = state.docs@;
    let stamp = t.updated_at;
    proof {
        lemma_doc_at(state, i as int);
        lemma_rising_remove_push(doc_stamps(s0), i as int, stamp, state.clock);
        lemma_distinct_remove_push(doc_ids(s0), i as int, t.id@);
        assert(doc_stamps(s0.remove(i as int).push(t)) =~= doc_stamps(s0).remove(i as int).push(
            stamp,
        ));
        assert(doc_ids(s0.remove(i as int).push(t)) =~= doc_ids(s0).remove(i as int).push(t.id@));
        lemma_rising_later(task_stamps(state.tasks@), state.clock, stamp);
        lemma_rising_later(idea_stamps(state.ideas@), state.clock, stamp);
        lemma_rising_later(version_stamps(state.doc_versions@), state.clock, stamp);
        lemma_doc_replace(s0, i as int, t);
    }
    state.docs.remove(i);
    state.docs.push(t);
    state.clock = stamp;
    proof {
        let s1 = state.docs@;
        assert forall|k: int| 0 <= k < s1.len() implies (#[trigger] s1[k]).created_at
            <= s1[k].updated_at && has_project(state.projects@, s1[k].project_id@) by {
            if k < s1.len() - 1 {
                let k0 = if k < i { k } else { k + 1 };
                assert(s1[k] == s0[k0]);
            }
        }
    }
}

/// What `add_doc` does, from `s0` to `s1`, with ids `id` and `version_id` at
/// time `now`: the document and its first version are written together.
pub open spec fn add_doc_post(
    s0: AppState,
    input: DocInput,
    id: String,
    version_id: String,
    now: i64,
    s1: AppState,
    r: CmdResult<String>,
) -> bool {
    match r {
        Ok(rid) => {
            &&& rid == id
            &&& has_project(s0.projects@, input.project_id@)
            &&& stamp_after(s0.clock, now) == Some(s1.clock)
            &&& !has_doc(s0.docs@, id@)
            &&& s1.docs@ == s0.docs@.push(new_doc(input, id, s1.clock))
            &&& s1.doc_versions@ == s0.doc_versions@.push(
                DocVersion { id: version_id, doc_id: id, body_md: input.body_md, created_at: s1.clock },
            )
            &&& s0.keeps(&s1, set![Table::Docs, Table::DocVersions])
        },
        Err(e) => {
            &&& s0.same(&s1)
            &&& !has_project(s0.projects@, input.project_id@) ==> e is Constraint
            &&& has_project(s0.projects@, input.project_id@) ==> {
                ||| e is Validation && stamp_after(s0.clock, now) is None
                ||| e is Constraint && stamp_after(s0.clock, now) is Some && has_doc(
                    s0.docs@,
                    id@,
                )
            }
        },
    }
}

/// Stores a new document with id `id` at time `now`, with its first version.
pub fn add_doc_at(state: &mut AppState, input: DocInput, id: String, version_id: String, now: i64) -> (r: CmdResult<String>)
    requires
        old(state).wf(),
    ensures
        final(state).wf(),
        add_doc_post(*old(state), input, id, version_id, now, *final(state), r),
{
    if find_project(&state.projects, &input.project_id).is_none() {
        return Err(constraint("the project does not exist"));
    }
    let stamp = match next_stamp(state.clock, now) {
        Some(s) => s,
        None => return Err(validation("the clock has run out of time stamps")),
    };
    if find_doc(&state.docs, &id).is_some() {
        return Err(constraint("a document with this id exists"));
    }
    let rid = id.clone();
    let v = DocVersion {
        id: version_id,
        doc_id: id.clone(),
        body_md: input.body_md.clone(),
        created_at: stamp,
    };
    let t = Doc {
        id,
        project_id: input.project_id,
        title: input.title,
        slug: input.slug,
        body_md: input.body_md.clone(),
        body_html: input.body_md,
        cover_path: input.cover_path,
        status: match input.status {
            Some(s) => s,
            None => DocStatus::Draft,
        },
        created_at: stamp,
        updated_at: stamp,
    };
    let ghost s0 = state.docs@;
    proof {
        lemma_rising_push(doc_stamps(s0), stamp, state.clock);
        lemma_distinct_push(doc_ids(s0), t.id@);
        assert(doc_stamps(s0.push(t)) =~= doc_stamps(s0).push(stamp));
        assert(doc_ids(s0.push(t)) =~= doc_ids(s0).push(t.id@));
        lemma_rising_later(task_stamps(state.tasks@), state.clock, stamp);
        lemma_rising_later(idea_stamps(state.ideas@), state.clock, stamp);
        lemma_doc_push(s0, t);
        lemma_rising_push(version_stamps(state.doc_versions@), stamp, state.clock);
        assert(version_stamps(state.doc_versions@.push(v)) =~= version_stamps(
            state.doc_versions@,
        ).push(stamp));
    }
    state.docs.push(t);
    state.doc_versions.push(v);
    state.clock = stamp;
    proof {
        assert forall|k: int| 0 <= k < state.docs@.len() implies has_project(
            state.projects@,
            (#[trigger] state.docs@[k]).project_id@,
        ) by {
            if k < s0.len() {
                assert(state.docs@[k] == s0[k]);
            }
        }
    }
    Ok(rid)
}

/// Creates a document with a fresh id, stamped now, and records its body as
/// the first version; returns its id.
pub fn add_doc(state: &mut AppState, input: DocInput) -> (r: CmdResult<String>)
    requires
        old(state).wf(),
    ensures
        final(state).wf(),
        exists|id: String, version_id: String, now: i64|
            add_doc_post(*old(state), input, id, version_id, now, *final(state), r),
{
    let id = fresh_uuid();
    let version_id = fresh_uuid();
    let now = now_millis();
    add_doc_at(state, input, id, version_id, now)
}

/// The positions of the documents of project `pid` among the last `k` of `s`,
/// from the last one backwards.
pub open spec fn doc_project_hits(s: Seq<Doc>, pid: Seq<char>, k: int) -> Seq<int>
    decreases k,
{
    if k <= 0 {
        Seq::empty()
    } else {
        let rest = doc_project_hits(s, pid, k - 1);
        let j = s.len() - k;
        if s[j].project_id@ == pid {
            rest.push(j)
        } else {
            rest
        }
    }
}

/// The documents of a project, most recently updated first.
pub fn list_docs(state: &AppState, project_id: String) -> (r: CmdResult<Vec<DocRow>>)
    requires
        state.wf(),
    ensures
        r is Ok,
        r->Ok_0@ == doc_project_hits(state.docs@, project_id@, state.docs@.len() as int).map_values(
            |i: int| doc_row(state.docs@[i]),
        ),
{
    let n = state.docs.len();
    let mut out: Vec<DocRow> = Vec::new();
    let mut k: usize = 0;
    while k < n
        invariant
            n == state.docs@.len(),
            k <= n,
            out@ == doc_project_hits(state.docs@, project_id@, k as int).map_values(
                |i: int| doc_row(state.docs@[i]),
            ),
        decreases n - k,
    {
        let t = &state.docs[n - 1 - k];
        if t.project_id == project_id {
            out.push(
                DocRow {
                    id: t.id.clone(),
                    project_id: t.project_id.clone(),
                    title: t.title.clone(),
                    slug: copy_opt(&t.slug),
                    status: t.status,
                    updated_at: t.updated_at,
                },
            );
        }
        k = k + 1;
        proof {
            assert(out@ =~= doc_project_hits(state.docs@, project_id@, k as int).map_values(
                |i: int| doc_row(state.docs@[i]),
            ));
        }
    }
    Ok(out)
}

/// The document with the given id.
pub fn get_doc(state: &AppState, id: String) -> (r: CmdResult<DocDetail>)
    requires
        state.wf(),
    ensures
        match r {
            Ok(d) => exists|i: int|
                0 <= i < state.docs@.len() && state.docs@[i].id@ == id@ && d == doc_detail(
                    #[trigger] state.docs@[i],
                ),
            Err(e) => e is NotFound && !has_doc(state.docs@, id@),
        },
{
    match find_doc(&state.docs, &id) {
        None => Err(not_found("document not found")),
        Some(i) => {
            let t = &state.docs[i];
            let cover = match &t.cover_path {
                Some(c) => if c.as_str().is_empty() {
                    None
                } else {
                    Some(c.clone())
                },
                None => None,
            };
            Ok(
                DocDetail {
                    id: t.id.clone(),
                    project_id: t.project_id.clone(),
                    title: t.title.clone(),
                    slug: copy_opt(&t.slug),
                    body_md: t.body_md.clone(),
                    body_html: t.body_html.clone(),
                    cover_path: cover,
                    status: t.status,
                    created_at: t.created_at,
                    updated_at: t.updated_at,
                },
            )
        },
    }
}

/// What `update_doc_body` does, from `s0` to `s1`, with version id
/// `version_id` at time `now`: the body, its cache and one new version are
/// written together.
pub open spec fn update_doc_body_post(
    s0: AppState,
    input: UpdateDocBodyInput,
    version_id: String,
    now: i64,
    s1: AppState,
    r: CmdResult<()>,
) -> bool {
    match r {
        Ok(_) => {
            &&& has_doc(s0.docs@, input.id@)
            &&& stamp_after(s0.clock, now) == Some(s1.clock)
            &&& forall|i: int|
                0 <= i < s0.docs@.len() && (#[trigger] s0.docs@[i]).id@ == input.id@ ==> {
                    &&& s1.docs@ == s0.docs@.remove(i).push(
                        rebodied_doc(s0.docs@[i], input.body_md, s1.clock),
                    )
                    &&& s1.doc_versions@ == s0.doc_versions@.push(
                        DocVersion {
                            id: version_id,
                            doc_id: s0.docs@[i].id,
                            body_md: input.body_md,
                            created_at: s1.clock,
                        },
                    )
                }
            &&& s0.keeps(&s1, set![Table::Docs, Table::DocVersions])
        },
        Err(e) => {
            &&& s0.same(&s1)
            &&& !has_doc(s0.docs@, input.id@) ==> e is NotFound
            &&& has_doc(s0.docs@, input.id@) ==> e is Validation && stamp_after(s0.clock, now) is None
        },
    }
}

/// Replaces the body of the document with the given id at time `now`, and
/// records the new body as a version, changed or not.
pub fn update_doc_body_at(state: &mut AppState, input: UpdateDocBodyInput, version_id: String, now: i64) -> (r: CmdResult<()>)
    requires
        old(state).wf(),
    ensures
        final(state).wf(),
        update_doc_body_post(*old(state), input, version_id, now, *final(state), r),
{
    let i = match find_doc(&state.docs, &input.id) {
        None => return Err(not_found("document not found")),
        Some(i) => i,
    };
    let stamp = match next_stamp(state.clock, now) {
        Some(s) => s,
        None => return Err(validation("the clock has run out of time stamps")),
    };
    let mut t = clone_doc(&state.docs[i]);
    proof {
        lemma_doc_at(state, i as int);
    }
    let v = DocVersion {
        id: version_id,
        doc_id: t.id.clone(),
        body_md: input.body_md.clone(),
        created_at: stamp,
    };
    t.body_md = input.body_md.clone();
    t.body_html = input.body_md;
    t.updated_at = stamp;
    let ghost vs0 = state.doc_versions@;
    let ghost c0 = state.clock;
    proof {
        lemma_rising_push(version_stamps(vs0), stamp, c0);
        assert(version_stamps(vs0.push(v)) =~= version_stamps(vs0).push(stamp));
    }
    replace_doc(state, i, t);
    proof {
        assert(state.docs@[state.docs@.len() - 1].id@ == v.doc_id@);
    }
    state.doc_versions.push(v);
    Ok(())
}

/// Replaces the body of the document with the given id, stamped now, and
/// records the new body as a version.
pub fn update_doc_body(state: &mut AppState, input: UpdateDocBodyInput) -> (r: CmdResult<()>)
    requires
        old(state).wf(),
    ensures
        final(state).wf(),
        exists|version_id: String, now: i64|
            update_doc_body_post(*old(state), input, version_id, now, *final(state), r),
{
    let version_id = fresh_uuid();
    let now = now_millis();
    update_doc_body_at(state, input, version_id, now)
}

/// Merges a metadata patch over the document with the given id at time `now`.
pub fn update_doc_meta_at(state: &mut AppState, input: UpdateDocMetaInput, now: i64) -> (r: CmdResult<()>)
    requires
        old(state).wf(),
    ensures
        final(state).wf(),
        match r {
            Ok(_) => {
                &&& has_doc(old(state).docs@, input.id@)
                &&& stamp_after(old(state).clock, now) == Some(final(state).clock)
                &&& forall|i: int|
                    0 <= i < old(state).docs@.len() && (#[trigger] old(state).docs@[i]).id@
                        == input.id@ ==> final(state).docs@ == old(state).docs@.remove(i).push(
                        patched_doc(old(state).docs@[i], input, final(state).clock),
                    )
                &&& old(state).keeps(&*final(state), set![Table::Docs])
            },
            Err(e) => {
                &&& old(state).same(&*final(state))
                &&& !has_doc(old(state).docs@, input.id@) ==> e is NotFound
                &&& has_doc(old(state).docs@, input.id@) ==> e is Validation && stamp_after(
                    old(state).clock,
                    now,
                ) is None
            },
        },
{
    let i = match find_doc(&state.docs, &input.id) {
        None => return Err(not_found("document not found")),
        Some(i) => i,
    };
    let stamp = match next_stamp(state.clock, now) {
        Some(s) => s,
        None => return Err(validation("the clock has run out of time stamps")),
    };
    let cur = clone_doc(&state.docs[i]);
    proof {
        lemma_doc_at(state, i as int);
    }
    let t = Doc {
        id: cur.id,
        project_id: cur.project_id,
        title: match input.title {
            Some(v) => v,
            None => cur.title,
        },
        slug: match input.slug {
            Some(v) => Some(v),
            None => cur.slug,
        },
        body_md: cur.body_md,
        body_html: cur.body_html,
        cover_path: match input.cover_path {
            Some(v) => Some(v),
            None => cur.cover_path,
        },
        status: match input.status {
            Some(v) => v,
            None => cur.status,
        },
        created_at: cur.created_at,
        updated_at: stamp,
    };
    replace_doc(state, i, t);
    Ok(())
}

/// Merges a metadata patch over the document with the given id, stamped now.
pub fn update_doc_meta(state: &mut AppState, input: UpdateDocMetaInput) -> (r: CmdResult<()>)
    requires
        old(state).wf(),
    ensures
        final(state).wf(),
        match r {
            Ok(_) => {
                &&& has_doc(old(state).docs@, input.id@)
                &&& final(state).clock > old(state).clock
                &&& forall|i: int|
                    0 <= i < old(state).docs@.len() && (#[trigger] old(state).docs@[i]).id@
                        == input.id@ ==> final(state).docs@ == old(state).docs@.remove(i).push(
                        patched_doc(old(state).docs@[i], input, final(state).clock),
                    )
                &&& old(state).keeps(&*final(state), set![Table::Docs])
            },
            Err(e) => {
                &&& old(state).same(&*final(state))
                &&& !has_doc(old(state).docs@, input.id@) ==> e is NotFound
                &&& has_doc(old(state).docs@, input.id@) ==> e is Validation && old(state).clock
                    == i64::MAX
            },
        },
{
    let now = now_millis();
    update_doc_meta_at(state, input, now)
}

/// A document that a search selects: in project `pid` where one is given, with
/// a term of its folded title or body that starts with the folded query `qf`.
pub open spec fn doc_selected(d: Doc, qf: Seq<char>, pid: Option<String>) -> bool {
    &&& match pid {
        Some(p) => d.project_id@ == p@,
        None => true,
    }
    &&& {
        ||| folded_match(d.title@, qf)
        ||| folded_match(d.body_md@, qf)
    }
}

/// The positions of the selected documents among the last `k` of `s`, from
/// the last one backwards.
pub open spec fn doc_hits(s: Seq<Doc>, qf: Seq<char>, pid: Option<String>, k: int) -> Seq<int>
    decreases k,
{
    if k <= 0 {
        Seq::empty()
    } else {
        let rest = doc_hits(s, qf, pid, k - 1);
        let j = s.len() - k;
        if doc_selected(s[j], qf, pid) {
            rest.push(j)
        } else {
            rest
        }
    }
}

/// Whether a term of the document's folded title or body starts with the folded query `qf`.
pub fn doc_matches(d: &Doc, qf: &Vec<char>) -> (r: bool)
    ensures
        r == (folded_match(d.title@, qf@) || folded_match(d.body_md@, qf@)),
{
    text_matches(&d.title, qf) || text_matches(&d.body_md, qf)
}

/// The (id, title) of each document with a term of its folded title or body
/// that starts with the folded query, in the given project where one is given, most recently
/// updated first.
pub fn search_docs(state: &AppState, q: String, project_id: Option<String>) -> (r: CmdResult<
    Vec<(String, String)>,
>)
    requires
        state.wf(),
    ensures
        r is Ok,
        r->Ok_0@ == doc_hits(state.docs@, lowercased(q@), project_id, state.docs@.len() as int).map_values(
            |i: int| (state.docs@[i].id, state.docs@[i].title),
        ),
{
    let qf = fold_query(&q);
    let n = state.docs.len();
    let mut out: Vec<(String, String)> = Vec::new();
    let mut k: usize = 0;
    while k < n
        invariant
            n == state.docs@.len(),
            k <= n,
            qf@ == lowercased(q@),
            out@ == doc_hits(state.docs@, qf@, project_id, k as int).map_values(
                |i: int| (state.docs@[i].id, state.docs@[i].title),
            ),
        decreases n - k,
    {
        let t = &state.docs[n - 1 - k];
        let in_project = match &project_id {
            Some(p) => t.project_id == *p,
            None => true,
        };
        if in_project && doc_matches(t, &qf) {
            out.push((t.id.clone(), t.title.clone()));
        }
        k = k + 1;
        proof {
            assert(out@ =~= doc_hits(state.docs@, qf@, project_id, k as int).map_values(
                |i: int| (state.docs@[i].id, state.docs@[i].title),
            ));
        }
    }
    Ok(out)
}

/// The directory that holds the attachments of document `doc_id`.
pub open spec fn attachment_dir(app_dir: Seq<char>, doc_id: Seq<char>) -> Seq<char> {
    app_dir + "/attachments/"@ + doc_id
}

/// The file of attachment `filename` of document `doc_id`.
pub open spec fn attachment_path(app_dir: Seq<char>, doc_id: Seq<char>, filename: Seq<char>) -> Seq<char> {
    attachment_dir(app_dir, doc_id) + "/"@ + filename
}

/// What `save_doc_attachment` returns for the input in store `s`.
pub open spec fn save_attachment_post(s: AppState, input: SaveDocAttachmentInput, r: CmdResult<AttachmentFile>) -> bool {
    match r {
        Ok(f) => {
            &&& has_doc(s.docs@, input.doc_id@)
            &&& base64_decoded(input.bytes_base64@) == Some(f.bytes@)
            &&& f.dir@ == attachment_dir(s.app_dir@, input.doc_id@)
            &&& f.path@ == attachment_path(s.app_dir@, input.doc_id@, input.filename@)
        },
        Err(e) => {
            &&& !has_doc(s.docs@, input.doc_id@) ==> e is Constraint
            &&& has_doc(s.docs@, input.doc_id@) ==> e is Validation && base64_decoded(
                input.bytes_base64@,
            ) is None
        },
    }
}

/// What `record_doc_attachment` does, from `s0` to `s1`, with row id `id` at
/// time `now`: one row that points at `path`.
pub open spec fn record_attachment_post(
    s0: AppState,
    input: SaveDocAttachmentInput,
    path: String,
    id: String,
    now: i64,
    s1: AppState,
    r: CmdResult<String>,
) -> bool {
    &&& s1.clock == s0.clock
    &&& match r {
        Ok(p) => {
            &&& has_doc(s0.docs@, input.doc_id@)
            &&& p@ == path@
            &&& s1.doc_attachments@ == s0.doc_attachments@.push(
                DocAttachment {
                    id,
                    doc_id: input.doc_id,
                    filename: input.filename,
                    path,
                    mime: s1.doc_attachments@.last().mime,
                    created_at: now,
                },
            )
            &&& s1.doc_attachments@.last().mime@ == mime_or_empty(input.mime)
            &&& s0.keeps(&s1, set![Table::DocAttachments])
        },
        Err(e) => e is Constraint && !has_doc(s0.docs@, input.doc_id@) && s0.same(&s1),
    }
}

/// Decodes an attachment of an existing document and says where it goes:
/// `<app_dir>/attachments/<doc_id>/<filename>`. Nothing is written; a file
/// with the same name is later overwritten.
pub fn save_doc_attachment(state: &AppState, input: &SaveDocAttachmentInput) -> (r: CmdResult<
    AttachmentFile,
>)
    requires
        state.wf(),
    ensures
        save_attachment_post(*state, *input, r),
{
    if find_doc(&state.docs, &input.doc_id).is_none() {
        return Err(constraint("the document does not exist"));
    }
    let bytes = match decode_base64(input.bytes_base64.as_str()) {
        Some(b) => b,
        None => return Err(validation("the attachment is not valid base64")),
    };
    let dir = state.app_dir.clone().concat("/attachments/").concat(input.doc_id.as_str());
    let path = dir.clone().concat("/").concat(input.filename.as_str());
    proof {
        assert(dir@ =~= attachment_dir(state.app_dir@, input.doc_id@));
        assert(path@ =~= attachment_path(state.app_dir@, input.doc_id@, input.filename@));
    }
    Ok(AttachmentFile { dir, path, bytes })
}

/// Records the attachment file `path` of an existing document, with id `id`
/// at time `now`; returns the path.
pub fn record_doc_attachment_at(
    state: &mut AppState,
    input: SaveDocAttachmentInput,
    path: String,
    id: String,
    now: i64,
) -> (r: CmdResult<String>)
    requires
        old(state).wf(),
    ensures
        final(state).wf(),
        record_attachment_post(*old(state), input, path, id, now, *final(state), r),
{
    if find_doc(&state.docs, &input.doc_id).is_none() {
        return Err(constraint("the document does not exist"));
    }
    let rp = path.clone();
    state.doc_attachments.push(
        DocAttachment {
            id,
            doc_id: input.doc_id,
            filename: input.filename,
            path,
            mime: mime_text(input.mime),
            created_at: now,
        },
    );
    Ok(rp)
}

/// Records the attachment file `path` of an existing document, with a fresh
/// id, dated now; returns the path.
pub fn record_doc_attachment(state: &mut AppState, input: SaveDocAttachmentInput, path: String) -> (r: CmdResult<String>)
    requires
        old(state).wf(),
    ensures
        final(state).wf(),
        exists|id: String, now: i64|
            record_attachment_post(*old(state), input, path, id, now, *final(state), r),
{
    let id = fresh_uuid();
    let now = now_millis();
    record_doc_attachment_at(state, input, path, id, now)
}

} // verus!
