//! The order in which workspaces and projects are listed, and the facts about
//! it that keep the stored tables in that order.

use vstd::prelude::*;
use crate::outside::{lex_le, text_le};
use crate::state::{text, Project, Workspace};

verus! {

/// The listing group of a workspace kind: `personal` first, then `work`, then the rest.
pub open spec fn kind_rank(kind: Seq<char>) -> int {
    if kind == "personal"@ {
        0
    } else if kind == "work"@ {
        1
    } else {
        2
    }
}

/// Workspace `a` may be listed before `b`: a lower group, or the same group
/// and a name not after `b`'s.
pub open spec fn ws_le(a: Workspace, b: Workspace) -> bool {
    ||| kind_rank(a.kind@) < kind_rank(b.kind@)
    ||| kind_rank(a.kind@) == kind_rank(b.kind@) && lex_le(a.name@, b.name@)
}

/// Project `a` may be listed before `b`: by workspace name, then by name.
pub open spec fn project_le(a: Project, b: Project) -> bool {
    ||| !lex_le(b.workspace_name@, a.workspace_name@)
    ||| lex_le(a.workspace_name@, b.workspace_name@) && lex_le(b.workspace_name@, a.workspace_name@)
        && lex_le(a.name@, b.name@)
}

pub open spec fn ws_sorted(s: Seq<Workspace>) -> bool {
    forall|i: int, j: int| 0 <= i < j < s.len() ==> ws_le(#[trigger] s[i], #[trigger] s[j])
}

pub open spec fn projects_sorted(s: Seq<Project>) -> bool {
    forall|i: int, j: int| 0 <= i < j < s.len() ==> project_le(#[trigger] s[i], #[trigger] s[j])
}

pub proof fn lemma_lex_total(a: Seq<char>, b: Seq<char>)
    ensures
        lex_le(a, b) || lex_le(b, a),
    decreases a.len(),
{
    if a.len() > 0 && b.len() > 0 && a[0] as u32 == b[0] as u32 {
        lemma_lex_total(a.drop_first(), b.drop_first());
    }
}

pub proof fn lemma_lex_trans(a: Seq<char>, b: Seq<char>, c: Seq<char>)
    requires
        lex_le(a, b),
        lex_le(b, c),
    ensures
        lex_le(a, c),
    decreases a.len(),
{
    if a.len() > 0 && b.len() > 0 && c.len() > 0 && a[0] as u32 == b[0] as u32 && b[0] as u32
        == c[0] as u32 {
        lemma_lex_trans(a.drop_first(), b.drop_first(), c.drop_first());
    }
}

pub proof fn lemma_ws_total(a: Workspace, b: Workspace)
    ensures
        ws_le(a, b) || ws_le(b, a),
{
    lemma_lex_total(a.name@, b.name@);
}

pub proof fn lemma_ws_trans(a: Workspace, b: Workspace, c: Workspace)
    requires
        ws_le(a, b),
        ws_le(b, c),
    ensures
        ws_le(a, c),
{
    if kind_rank(a.kind@) == kind_rank(b.kind@) && kind_rank(b.kind@) == kind_rank(c.kind@) {
        lemma_lex_trans(a.name@, b.name@, c.name@);
    }
}

pub proof fn lemma_project_total(a: Project, b: Project)
    ensures
        project_le(a, b) || project_le(b, a),
{
    lemma_lex_total(a.name@, b.name@);
    lemma_lex_total(a.workspace_name@, b.workspace_name@);
}

pub proof fn lemma_project_trans(a: Project, b: Project, c: Project)
    requires
        project_le(a, b),
        project_le(b, c),
    ensures
        project_le(a, c),
{
    let (x, y, z) = (a.workspace_name@, b.workspace_name@, c.workspace_name@);
    lemma_lex_total(x, y);
    lemma_lex_total(y, z);
    if lex_le(z, x) {
        lemma_lex_trans(y, z, x);
        lemma_lex_trans(z, x, y);
        lemma_lex_trans(x, y, z);
        lemma_lex_trans(a.name@, b.name@, c.name@);
    }
}

/// Inserting `x` after every entry not above it and before the first one above
/// it keeps the order.
pub proof fn lemma_ws_insert(s: Seq<Workspace>, p: int, x: Workspace)
    requires
        ws_sorted(s),
        0 <= p <= s.len(),
        forall|k: int| 0 <= k < p ==> ws_le(#[trigger] s[k], x),
        p < s.len() ==> !ws_le(s[p], x),
    ensures
        ws_sorted(s.insert(p, x)),
{
    let r = s.insert(p, x);
    if p < s.len() {
        lemma_ws_total(s[p], x);
    }
    assert forall|i: int, j: int| 0 <= i < j < r.len() implies ws_le(#[trigger] r[i], #[trigger] r[j]) by {
        if j == p {
            assert(r[i] == s[i]);
        } else if i == p {
            assert(r[j] == s[j - 1]);
            if j - 1 > p {
                lemma_ws_trans(x, s[p], s[j - 1]);
            }
        } else {
            let i0 = if i < p { i } else { i - 1 };
            let j0 = if j < p { j } else { j - 1 };
            assert(r[i] == s[i0] && r[j] == s[j0]);
        }
    }
}

/// Inserting `x` after every entry not above it and before the first one above
/// it keeps the order.
pub proof fn lemma_project_insert(s: Seq<Project>, p: int, x: Project)
    requires
        projects_sorted(s),
        0 <= p <= s.len(),
        forall|k: int| 0 <= k < p ==> project_le(#[trigger] s[k], x),
        p < s.len() ==> !project_le(s[p], x),
    ensures
        projects_sorted(s.insert(p, x)),
{
    let r = s.insert(p, x);
    if p < s.len() {
        lemma_project_total(s[p], x);
    }
    assert forall|i: int, j: int| 0 <= i < j < r.len() implies project_le(#[trigger] r[i], #[trigger] r[j]) by {
        if j == p {
            assert(r[i] == s[i]);
        } else if i == p {
            assert(r[j] == s[j - 1]);
            if j - 1 > p {
                lemma_project_trans(x, s[p], s[j - 1]);
            }
        } else {
            let i0 = if i < p { i } else { i - 1 };
            let j0 = if j < p { j } else { j - 1 };
            assert(r[i] == s[i0] && r[j] == s[j0]);
        }
    }
}

/// The listing group of a workspace kind.
pub fn kind_rank_exec(kind: &String) -> (r: u8)
    ensures
        r as int == kind_rank(kind@),
{
    if *kind == text("personal") {
        0
    } else if *kind == text("work") {
        1
    } else {
        2
    }
}

/// Whether workspace `a` may be listed before `b`.
pub fn ws_le_exec(a: &Workspace, b: &Workspace) -> (r: bool)
    ensures
        r == ws_le(*a, *b),
{
    let ra = kind_rank_exec(&a.kind);
    let rb = kind_rank_exec(&b.kind);
    ra < rb || (ra == rb && text_le(a.name.as_str(), b.name.as_str()))
}

/// Whether project `a` may be listed before `b`.
pub fn project_le_exec(a: &Project, b: &Project) -> (r: bool)
    ensures
        r == project_le(*a, *b),
{
    let le_ab = text_le(a.workspace_name.as_str(), b.workspace_name.as_str());
    let le_ba = text_le(b.workspace_name.as_str(), a.workspace_name.as_str());
    !le_ba || (le_ab && text_le(a.name.as_str(), b.name.as_str()))
}

/// Where `x` goes in a sorted table: after every entry not above it.
pub fn ws_insert_pos(s: &Vec<Workspace>, x: &Workspace) -> (p: usize)
    requires
        ws_sorted(s@),
    ensures
        p <= s@.len(),
        forall|k: int| 0 <= k < p ==> ws_le(#[trigger] s@[k], *x),
        p < s@.len() ==> !ws_le(s@[p as int], *x),
{
    let mut i: usize = 0;
    while i < s.len()
        invariant
            i <= s@.len(),
            forall|k: int| 0 <= k < i ==> ws_le(#[trigger] s@[k], *x),
        decreases s@.len() - i,
    {
        if !ws_le_exec(&s[i], x) {
            return i;
        }
        i = i + 1;
    }
    i
}

/// Where `x` goes in a sorted table: after every entry not above it.
pub fn project_insert_pos(s: &Vec<Project>, x: &Project) -> (p: usize)
    requires
        projects_sorted(s@),
    ensures
        p <= s@.len(),
        forall|k: int| 0 <= k < p ==> project_le(#[trigger] s@[k], *x),
        p < s@.len() ==> !project_le(s@[p as int], *x),
{
    let mut i: usize = 0;
    while i < s.len()
        invariant
            i <= s@.len(),
            forall|k: int| 0 <= k < i ==> project_le(#[trigger] s@[k], *x),
        decreases s@.len() - i,
    {
        if !project_le_exec(&s[i], x) {
            return i;
        }
        i = i + 1;
    }
    i
}

} // verus!
