//! Counts of the rows of a project.

use vstd::prelude::*;
use crate::error::CmdResult;
use crate::state::{AppState, Doc, Idea, Task};

verus! {

/// How many of the tasks belong to project `pid`.
pub open spec fn tasks_in(s: Seq<Task>, pid: Seq<char>) -> nat
    decreases s.len(),
{
    if s.len() == 0 {
        0
    } else {
        tasks_in(s.drop_last(), pid) + if s.last().project_id matches Some(p) && p@ == pid {
            1nat
        } else {
            0nat
        }
    }
}

/// How many of the ideas belong to project `pid`.
pub open spec fn ideas_in(s: Seq<Idea>, pid: Seq<char>) -> nat
    decreases s.len(),
{
    if s.len() == 0 {
        0
    } else {
        ideas_in(s.drop_last(), pid) + if s.last().project_id@ == pid {
            1nat
        } else {
            0nat
        }
    }
}

/// How many of the documents belong to project `pid`.
pub open spec fn docs_in(s: Seq<Doc>, pid: Seq<char>) -> nat
    decreases s.len(),
{
    if s.len() == 0 {
        0
    } else {
        docs_in(s.drop_last(), pid) + if s.last().project_id@ == pid {
            1nat
        } else {
            0nat
        }
    }
}

/// The number of tasks of a project.
pub fn count_tasks_by_project(state: &AppState, project_id: String) -> (r: CmdResult<usize>)
    ensures
        r is Ok,
        r->Ok_0 == tasks_in(state.tasks@, project_id@),
{
    let mut n: usize = 0;
    let mut i: usize = 0;
    while i < state.tasks.len()
        invariant
            i <= state.tasks@.len(),
            n == tasks_in(state.tasks@.subrange(0, i as int), project_id@),
            n <= i,
        decreases state.tasks@.len() - i,
    {
        proof {
            assert(state.tasks@.subrange(0, i + 1).drop_last() =~= state.tasks@.subrange(0, i as int));
        }
        match &state.tasks[i].project_id {
            Some(p) => if *p == project_id {
                n = n + 1;
            },
            None => {},
        }
        i = i + 1;
    }
    proof {
        assert(state.tasks@.subrange(0, i as int) =~= state.tasks@);
    }
    Ok(n)
}

/// The number of ideas of a project.
pub fn count_ideas_by_project(state: &AppState, project_id: String) -> (r: CmdResult<usize>)
    ensures
        r is Ok,
        r->Ok_0 == ideas_in(state.ideas@, project_id@),
{
    let mut n: usize = 0;
    let mut i: usize = 0;
    while i < state.ideas.len()
        invariant
            i <= state.ideas@.len(),
            n == ideas_in(state.ideas@.subrange(0, i as int), project_id@),
            n <= i,
        decreases state.ideas@.len() - i,
    {
        proof {
            assert(state.ideas@.subrange(0, i + 1).drop_last() =~= state.ideas@.subrange(0, i as int));
        }
        if state.ideas[i].project_id == project_id {
            n = n + 1;
        }
        i = i + 1;
    }
    proof {
        assert(state.ideas@.subrange(0, i as int) =~= state.ideas@);
    }
    Ok(n)
}

/// The number of documents of a project.
pub fn count_docs_by_project(state: &AppState, project_id: String) -> (r: CmdResult<usize>)
    ensures
        r is Ok,
        r->Ok_0 == docs_in(state.docs@, project_id@),
{
    let mut n: usize = 0;
    let mut i: usize = 0;
    while i < state.docs.len()
        invariant
            i <= state.docs@.len(),
            n == docs_in(state.docs@.subrange(0, i as int), project_id@),
            n <= i,
        decreases state.docs@.len() - i,
    {
        proof {
            assert(state.docs@.subrange(0, i + 1).drop_last() =~= state.docs@.subrange(0, i as int));
        }
        if state.docs[i].project_id == project_id {
            n = n + 1;
        }
        i = i + 1;
    }
    proof {
        assert(state.docs@.subrange(0, i as int) =~= state.docs@);
    }
    Ok(n)
}

} // verus!
