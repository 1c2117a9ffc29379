use deepfocus::docs::{
    add_doc, get_doc, list_docs, record_doc_attachment, save_doc_attachment, search_docs,
    update_doc_body, update_doc_meta, DocInput, DocStatus, SaveDocAttachmentInput,
    UpdateDocBodyInput, UpdateDocMetaInput,
};
use deepfocus::error::AppError;
use deepfocus::ideas::{
    add_idea, add_idea_attachment, add_idea_link, add_idea_note, create_task_from_idea, get_idea,
    link_idea_doc, list_ideas, search_ideas, update_idea, IdeaAttachmentInput, IdeaDocLinkInput,
    IdeaInput, IdeaLinkInput, IdeaNoteInput, IdeaStatus, IdeaToTaskInput, UpdateIdeaInput,
};
use deepfocus::metrics::{count_docs_by_project, count_ideas_by_project, count_tasks_by_project};
use deepfocus::projects::{
    create_project, create_workspace, default_kind, default_status, list_projects,
    create_workspace_at, list_workspaces, workspace_id, CreateProjectInput, CreateWorkspaceInput,
};
use deepfocus::state::AppState;
use deepfocus::tasks::{
    add_reason, add_task, get_task, list_tasks, set_task_status, update_task, ReasonInput,
    TaskInput, TaskStatus, UpdateTaskInput,
};

fn store() -> AppState {
    AppState::new("/data".to_string())
}

fn ws(state: &mut AppState, name: &str, kind: &str) -> String {
    create_workspace(state, CreateWorkspaceInput { name: name.to_string(), kind: kind.to_string() })
        .unwrap()
}

fn project(state: &mut AppState, ws_id: &str, name: &str) -> String {
    create_project(
        state,
        CreateProjectInput {
            workspace_id: ws_id.to_string(),
            name: name.to_string(),
            description: None,
            status: "active".to_string(),
        },
    )
    .unwrap()
}

fn task_input(name: &str) -> TaskInput {
    TaskInput {
        name: name.to_string(),
        category: "dev".to_string(),
        short_summary: Some("short".to_string()),
        description: None,
        status: TaskStatus::Todo,
        current_stage: None,
        start_at: Some(1000),
        end_est_at: None,
    }
}

fn idea_input(project_id: &str, title: &str, summary: Option<&str>) -> IdeaInput {
    IdeaInput {
        project_id: project_id.to_string(),
        title: title.to_string(),
        summary: summary.map(|s| s.to_string()),
        status: None,
        priority: None,
        effort_pts: None,
        impact_pts: None,
    }
}

fn doc_input(project_id: &str, title: &str, body: &str) -> DocInput {
    DocInput {
        project_id: project_id.to_string(),
        title: title.to_string(),
        slug: None,
        body_md: body.to_string(),
        cover_path: None,
        status: None,
    }
}

#[test]
fn personal_workspace_created_twice_has_one_row() {
    let mut s = store();
    let a = ws(&mut s, "Personal", "personal");
    let b = ws(&mut s, "Personal", "personal");
    assert_eq!(a, "ws_personal");
    assert_eq!(a, b);
    assert_eq!(s.workspaces.len(), 1);
}

#[test]
fn work_workspace_gets_well_known_id_with_trimmed_name() {
    let mut s = store();
    let id = ws(&mut s, "  WORK ", "work");
    assert_eq!(id, "ws_work");
    assert_eq!(s.workspaces[0].name, "WORK");
}

#[test]
fn custom_workspace_gets_fresh_prefixed_id() {
    let mut s = store();
    let a = ws(&mut s, "Personal", "custom");
    let b = ws(&mut s, "Personal", "custom");
    assert!(a.starts_with("ws_"));
    assert_ne!(a, "ws_personal");
    assert_ne!(a, b);
    assert_eq!(s.workspaces.len(), 2);
}

#[test]
fn empty_workspace_name_is_refused() {
    let mut s = store();
    let r = create_workspace(&mut s, CreateWorkspaceInput { name: "   ".to_string(), kind: default_kind() });
    assert!(matches!(r, Err(AppError::Validation(_))));
    assert_eq!(r.err().unwrap().message(), "Workspace name is required");
    assert!(s.workspaces.is_empty());
}

#[test]
fn workspaces_list_personal_then_work_then_by_name() {
    let mut s = store();
    ws(&mut s, "Zeta", "custom");
    ws(&mut s, "Work", "work");
    ws(&mut s, "Alpha", "custom");
    ws(&mut s, "Personal", "personal");
    let names: Vec<String> = list_workspaces(&s).unwrap().into_iter().map(|w| w.name).collect();
    assert_eq!(names, vec!["Personal", "Work", "Alpha", "Zeta"]);
}

#[test]
fn project_in_missing_workspace_is_refused_without_a_row() {
    let mut s = store();
    let r = create_project(
        &mut s,
        CreateProjectInput {
            workspace_id: "ws_nowhere".to_string(),
            name: "P".to_string(),
            description: None,
            status: default_status(),
        },
    );
    assert!(matches!(r, Err(AppError::Validation(_))));
    assert!(s.projects.is_empty());
}

#[test]
fn empty_project_name_is_refused() {
    let mut s = store();
    let w = ws(&mut s, "Personal", "personal");
    let r = create_project(
        &mut s,
        CreateProjectInput { workspace_id: w, name: " ".to_string(), description: None, status: default_status() },
    );
    assert!(matches!(r, Err(AppError::Validation(_))));
    assert!(s.projects.is_empty());
}

#[test]
fn projects_list_by_workspace_name_then_name_and_filter() {
    let mut s = store();
    let w1 = ws(&mut s, "Personal", "personal");
    let w2 = ws(&mut s, "Acme", "custom");
    let p1 = project(&mut s, &w1, "garden");
    project(&mut s, &w2, "zeta");
    project(&mut s, &w2, "alpha");
    assert!(p1.starts_with("prj_"));
    let all = list_projects(&s, None).unwrap();
    let names: Vec<(String, String)> = all.into_iter().map(|p| (p.workspace_name, p.name)).collect();
    assert_eq!(
        names,
        vec![
            ("Acme".to_string(), "alpha".to_string()),
            ("Acme".to_string(), "zeta".to_string()),
            ("Personal".to_string(), "garden".to_string()),
        ]
    );
    let only = list_projects(&s, Some(w1.clone())).unwrap();
    assert_eq!(only.len(), 1);
    assert_eq!(only[0].id, p1);
    assert_eq!(only[0].workspace_id, w1);
    assert_eq!(only[0].status, "active");
}

#[test]
fn task_round_trip_and_listing_order() {
    let mut s = store();
    let a = add_task(&mut s, task_input("first")).unwrap();
    let b = add_task(&mut s, task_input("second")).unwrap();
    let d = get_task(&s, a.clone()).unwrap();
    assert_eq!(d.name, "first");
    assert_eq!(d.category, "dev");
    assert_eq!(d.short_summary.as_deref(), Some("short"));
    assert_eq!(d.start_at, Some(1000));
    assert_eq!(d.status, TaskStatus::Todo);
    assert!(d.updated_at >= d.created_at);
    let ids: Vec<String> = list_tasks(&s).into_iter().map(|t| t.id).collect();
    assert_eq!(ids, vec![b.clone(), a.clone()]);
    set_task_status(&mut s, a.clone(), TaskStatus::InProgress).unwrap();
    let ids: Vec<String> = list_tasks(&s).into_iter().map(|t| t.id).collect();
    assert_eq!(ids, vec![a.clone(), b]);
    assert_eq!(get_task(&s, a).unwrap().status, TaskStatus::InProgress);
}

#[test]
fn missing_task_is_not_found() {
    let s = store();
    assert!(matches!(get_task(&s, "nope".to_string()), Err(AppError::NotFound(_))));
}

#[test]
fn status_of_missing_task_changes_nothing() {
    let mut s = store();
    assert!(set_task_status(&mut s, "nope".to_string(), TaskStatus::Dropped).is_ok());
    assert!(s.tasks.is_empty());
}

#[test]
fn empty_task_patch_changes_only_the_stamp() {
    let mut s = store();
    let id = add_task(&mut s, task_input("keep")).unwrap();
    let before = get_task(&s, id.clone()).unwrap();
    update_task(
        &mut s,
        UpdateTaskInput {
            id: id.clone(),
            name: None,
            category: None,
            short_summary: None,
            description: None,
            status: None,
            current_stage: None,
            start_at: None,
            end_est_at: None,
        },
    )
    .unwrap();
    let after = get_task(&s, id).unwrap();
    assert_eq!(after.name, before.name);
    assert_eq!(after.category, before.category);
    assert_eq!(after.short_summary, before.short_summary);
    assert_eq!(after.start_at, before.start_at);
    assert_eq!(after.created_at, before.created_at);
    assert!(after.updated_at > before.updated_at);
}

#[test]
fn task_patch_merges_present_fields() {
    let mut s = store();
    let id = add_task(&mut s, task_input("old")).unwrap();
    update_task(
        &mut s,
        UpdateTaskInput {
            id: id.clone(),
            name: Some("new".to_string()),
            category: None,
            short_summary: None,
            description: Some("desc".to_string()),
            status: Some(TaskStatus::Completed),
            current_stage: None,
            start_at: None,
            end_est_at: Some(5000),
        },
    )
    .unwrap();
    let d = get_task(&s, id).unwrap();
    assert_eq!(d.name, "new");
    assert_eq!(d.category, "dev");
    assert_eq!(d.short_summary.as_deref(), Some("short"));
    assert_eq!(d.description.as_deref(), Some("desc"));
    assert_eq!(d.status, TaskStatus::Completed);
    assert_eq!(d.end_est_at, Some(5000));
}

#[test]
fn update_of_missing_task_is_not_found() {
    let mut s = store();
    let r = update_task(
        &mut s,
        UpdateTaskInput {
            id: "x".to_string(),
            name: None,
            category: None,
            short_summary: None,
            description: None,
            status: None,
            current_stage: None,
            start_at: None,
            end_est_at: None,
        },
    );
    assert!(matches!(r, Err(AppError::NotFound(_))));
}

#[test]
fn reasons_need_an_existing_task() {
    let mut s = store();
    let r = add_reason(
        &mut s,
        ReasonInput { task_id: "x".to_string(), status: TaskStatus::Dropped, note: "n".to_string() },
    );
    assert!(matches!(r, Err(AppError::Constraint(_))));
    let id = add_task(&mut s, task_input("t")).unwrap();
    add_reason(
        &mut s,
        ReasonInput { task_id: id.clone(), status: TaskStatus::Dropped, note: "why".to_string() },
    )
    .unwrap();
    assert_eq!(s.status_reasons.len(), 1);
    assert_eq!(s.status_reasons[0].task_id, id);
    assert_eq!(s.status_reasons[0].note, "why");
    assert_eq!(get_task(&s, id).unwrap().status, TaskStatus::Todo);
}

#[test]
fn status_names() {
    assert_eq!(TaskStatus::InProgress.to_string(), "in-progress");
    assert_eq!(TaskStatus::StageComplete.to_string(), "stage-complete");
    assert_eq!(IdeaStatus::Shipped.to_string(), "shipped");
    assert_eq!(DocStatus::InReview.to_string(), "in_review");
}

#[test]
fn idea_defaults_and_priority_clamp() {
    let mut s = store();
    let w = ws(&mut s, "Personal", "personal");
    let p = project(&mut s, &w, "P");
    let a = add_idea(&mut s, idea_input(&p, "a", None)).unwrap();
    let d = get_idea(&s, a.clone()).unwrap();
    assert_eq!(d.status, IdeaStatus::Inbox);
    assert_eq!(d.priority, 2);
    assert_eq!(d.effort_pts, 1);
    assert_eq!(d.impact_pts, 1);
    let mut hi = idea_input(&p, "b", None);
    hi.priority = Some(9);
    let b = add_idea(&mut s, hi).unwrap();
    assert_eq!(get_idea(&s, b.clone()).unwrap().priority, 4);
    update_idea(
        &mut s,
        UpdateIdeaInput {
            id: b.clone(),
            title: None,
            summary: None,
            status: None,
            priority: Some(-3),
            effort_pts: None,
            impact_pts: None,
        },
    )
    .unwrap();
    assert_eq!(get_idea(&s, b).unwrap().priority, 0);
}

#[test]
fn idea_needs_existing_project() {
    let mut s = store();
    let r = add_idea(&mut s, idea_input("prj_none", "a", None));
    assert!(matches!(r, Err(AppError::Constraint(_))));
    assert!(s.ideas.is_empty());
}

#[test]
fn empty_idea_patch_changes_only_the_stamp() {
    let mut s = store();
    let w = ws(&mut s, "Personal", "personal");
    let p = project(&mut s, &w, "P");
    let id = add_idea(&mut s, idea_input(&p, "t", Some("sum"))).unwrap();
    let before = get_idea(&s, id.clone()).unwrap();
    update_idea(
        &mut s,
        UpdateIdeaInput {
            id: id.clone(),
            title: None,
            summary: None,
            status: None,
            priority: None,
            effort_pts: None,
            impact_pts: None,
        },
    )
    .unwrap();
    let after = get_idea(&s, id).unwrap();
    assert_eq!(after.title, before.title);
    assert_eq!(after.summary, before.summary);
    assert_eq!(after.priority, before.priority);
    assert_eq!(after.created_at, before.created_at);
    assert!(after.updated_at > before.updated_at);
}

#[test]
fn idea_children_and_doc_links() {
    let mut s = store();
    let w = ws(&mut s, "Personal", "personal");
    let p = project(&mut s, &w, "P");
    let i = add_idea(&mut s, idea_input(&p, "t", None)).unwrap();
    let d = add_doc(&mut s, doc_input(&p, "doc", "body")).unwrap();
    add_idea_note(&mut s, IdeaNoteInput { idea_id: i.clone(), body_md: "note".to_string() }).unwrap();
    add_idea_link(
        &mut s,
        IdeaLinkInput { idea_id: i.clone(), kind: "ref".to_string(), url: "http://x".to_string(), title: None },
    )
    .unwrap();
    add_idea_attachment(
        &mut s,
        IdeaAttachmentInput { idea_id: i.clone(), filename: "f".to_string(), path: "/f".to_string(), mime: None },
    )
    .unwrap();
    assert_eq!(s.idea_notes.len(), 1);
    assert_eq!(s.idea_links.len(), 1);
    assert_eq!(s.idea_attachments[0].mime, "");
    link_idea_doc(&mut s, IdeaDocLinkInput { idea_id: i.clone(), doc_id: d.clone() }).unwrap();
    link_idea_doc(&mut s, IdeaDocLinkInput { idea_id: i.clone(), doc_id: d }).unwrap();
    assert_eq!(s.idea_doc_map.len(), 1);
    let r = add_idea_note(&mut s, IdeaNoteInput { idea_id: "none".to_string(), body_md: "x".to_string() });
    assert!(matches!(r, Err(AppError::Constraint(_))));
    let r = link_idea_doc(&mut s, IdeaDocLinkInput { idea_id: i, doc_id: "none".to_string() });
    assert!(matches!(r, Err(AppError::Constraint(_))));
}

#[test]
fn search_ideas_filters_by_project_and_orders_by_recency() {
    let mut s = store();
    let w = ws(&mut s, "Personal", "personal");
    let p = project(&mut s, &w, "P");
    let q = project(&mut s, &w, "Q");
    let a = add_idea(&mut s, idea_input(&p, "Foo bar", None)).unwrap();
    let _other = add_idea(&mut s, idea_input(&q, "foo elsewhere", None)).unwrap();
    let c = add_idea(&mut s, idea_input(&p, "nothing", Some("has FOO inside"))).unwrap();
    let _miss = add_idea(&mut s, idea_input(&p, "nothing", None)).unwrap();
    let hits = search_ideas(&s, "foo".to_string(), Some(p.clone())).unwrap();
    let ids: Vec<String> = hits.iter().map(|h| h.0.clone()).collect();
    assert_eq!(ids, vec![c.clone(), a.clone()]);
    assert_eq!(hits[1].1, "Foo bar");
    let all = search_ideas(&s, "foo".to_string(), None).unwrap();
    assert_eq!(all.len(), 3);
    let listed: Vec<String> = list_ideas(&s, p).unwrap().into_iter().map(|r| r.id).collect();
    assert_eq!(listed.len(), 3);
    assert_eq!(listed[1], c);
}

#[test]
fn task_from_idea_takes_project_and_workspace() {
    let mut s = store();
    let w = ws(&mut s, "Work", "work");
    let p = project(&mut s, &w, "P");
    let i = add_idea(&mut s, idea_input(&p, "Idea title", Some("Idea summary"))).unwrap();
    let t = create_task_from_idea(
        &mut s,
        IdeaToTaskInput {
            idea_id: i.clone(),
            category: "build".to_string(),
            description: Some("d".to_string()),
            start_at: None,
            end_est_at: Some(99),
        },
    )
    .unwrap();
    let row = s.tasks.iter().find(|x| x.id == t).unwrap();
    assert_eq!(row.name, "Idea title");
    assert_eq!(row.short_summary.as_deref(), Some("Idea summary"));
    assert_eq!(row.category, "build");
    assert_eq!(row.status, TaskStatus::Todo);
    assert_eq!(row.project_id.as_deref(), Some(p.as_str()));
    assert_eq!(row.workspace_id.as_deref(), Some("ws_work"));
    assert_eq!(row.origin_idea_id.as_deref(), Some(i.as_str()));
    assert_eq!(row.end_est_at, Some(99));
    assert_eq!(s.idea_task_map.len(), 1);
    assert_eq!(s.idea_task_map[0].left, i);
    assert_eq!(s.idea_task_map[0].right, t);
}

#[test]
fn task_from_missing_idea_writes_nothing() {
    let mut s = store();
    let r = create_task_from_idea(
        &mut s,
        IdeaToTaskInput {
            idea_id: "none".to_string(),
            category: "c".to_string(),
            description: None,
            start_at: None,
            end_est_at: None,
        },
    );
    assert!(matches!(r, Err(AppError::NotFound(_))));
    assert!(s.tasks.is_empty());
    assert!(s.idea_task_map.is_empty());
}

#[test]
fn doc_versions_follow_every_body_write() {
    let mut s = store();
    let w = ws(&mut s, "Personal", "personal");
    let p = project(&mut s, &w, "P");
    let d = add_doc(&mut s, doc_input(&p, "T", "one")).unwrap();
    assert_eq!(s.doc_versions.len(), 1);
    assert_eq!(s.doc_versions[0].body_md, "one");
    update_doc_body(&mut s, UpdateDocBodyInput { id: d.clone(), body_md: "two".to_string() }).unwrap();
    update_doc_body(&mut s, UpdateDocBodyInput { id: d.clone(), body_md: "two".to_string() }).unwrap();
    assert_eq!(s.doc_versions.len(), 3);
    assert_eq!(s.doc_versions[2].body_md, "two");
    let detail = get_doc(&s, d.clone()).unwrap();
    assert_eq!(detail.body_md, "two");
    assert_eq!(detail.body_html, "two");
    assert_eq!(detail.status, DocStatus::Draft);
    assert_eq!(detail.cover_path, None);
    let r = update_doc_body(&mut s, UpdateDocBodyInput { id: "none".to_string(), body_md: "x".to_string() });
    assert!(matches!(r, Err(AppError::NotFound(_))));
    assert_eq!(s.doc_versions.len(), 3);
}

#[test]
fn doc_meta_patch_merges_and_keeps_body() {
    let mut s = store();
    let w = ws(&mut s, "Personal", "personal");
    let p = project(&mut s, &w, "P");
    let d = add_doc(&mut s, doc_input(&p, "T", "body")).unwrap();
    let before = get_doc(&s, d.clone()).unwrap();
    update_doc_meta(
        &mut s,
        UpdateDocMetaInput { id: d.clone(), title: None, slug: None, cover_path: None, status: None },
    )
    .unwrap();
    let same = get_doc(&s, d.clone()).unwrap();
    assert_eq!(same.title, before.title);
    assert!(same.updated_at > before.updated_at);
    update_doc_meta(
        &mut s,
        UpdateDocMetaInput {
            id: d.clone(),
            title: Some("New".to_string()),
            slug: Some("new".to_string()),
            cover_path: Some("/c.png".to_string()),
            status: Some(DocStatus::Published),
        },
    )
    .unwrap();
    let after = get_doc(&s, d).unwrap();
    assert_eq!(after.title, "New");
    assert_eq!(after.slug.as_deref(), Some("new"));
    assert_eq!(after.cover_path.as_deref(), Some("/c.png"));
    assert_eq!(after.status, DocStatus::Published);
    assert_eq!(after.body_md, "body");
    assert_eq!(s.doc_versions.len(), 1);
}

#[test]
fn search_docs_matches_title_or_body() {
    let mut s = store();
    let w = ws(&mut s, "Personal", "personal");
    let p = project(&mut s, &w, "P");
    let a = add_doc(&mut s, doc_input(&p, "Rust notes", "x")).unwrap();
    let b = add_doc(&mut s, doc_input(&p, "other", "about rust")).unwrap();
    add_doc(&mut s, doc_input(&p, "none", "none")).unwrap();
    let hits: Vec<String> = search_docs(&s, "RUST".to_string(), Some(p.clone())).unwrap().into_iter().map(|h| h.0).collect();
    assert_eq!(hits, vec![b, a]);
    assert_eq!(list_docs(&s, p).unwrap().len(), 3);
}

#[test]
fn attachment_bytes_are_decoded_and_recorded_once() {
    let mut s = store();
    let w = ws(&mut s, "Personal", "personal");
    let p = project(&mut s, &w, "P");
    let d = add_doc(&mut s, doc_input(&p, "T", "b")).unwrap();
    let input = SaveDocAttachmentInput {
        doc_id: d.clone(),
        filename: "a.txt".to_string(),
        bytes_base64: "aGVsbG8=".to_string(),
        mime: Some("text/plain".to_string()),
    };
    let f = save_doc_attachment(&s, &input).unwrap();
    assert_eq!(f.bytes, b"hello".to_vec());
    assert_eq!(f.dir, format!("/data/attachments/{}", d));
    assert_eq!(f.path, format!("/data/attachments/{}/a.txt", d));
    let path = f.path.clone();
    let r = record_doc_attachment(&mut s, input, f.path).unwrap();
    assert_eq!(r, path);
    assert_eq!(s.doc_attachments.len(), 1);
    assert_eq!(s.doc_attachments[0].path, path);
    assert_eq!(s.doc_attachments[0].mime, "text/plain");
}

#[test]
fn invalid_base64_attachment_is_refused() {
    let mut s = store();
    let w = ws(&mut s, "Personal", "personal");
    let p = project(&mut s, &w, "P");
    let d = add_doc(&mut s, doc_input(&p, "T", "b")).unwrap();
    let input = SaveDocAttachmentInput {
        doc_id: d,
        filename: "a".to_string(),
        bytes_base64: "not base64!".to_string(),
        mime: None,
    };
    assert!(matches!(save_doc_attachment(&s, &input), Err(AppError::Validation(_))));
    let missing = SaveDocAttachmentInput {
        doc_id: "none".to_string(),
        filename: "a".to_string(),
        bytes_base64: "aGVsbG8=".to_string(),
        mime: None,
    };
    assert!(matches!(save_doc_attachment(&s, &missing), Err(AppError::Constraint(_))));
    assert!(s.doc_attachments.is_empty());
}

#[test]
fn counts_by_project() {
    let mut s = store();
    let w = ws(&mut s, "Personal", "personal");
    let p = project(&mut s, &w, "P");
    let q = project(&mut s, &w, "Q");
    let i = add_idea(&mut s, idea_input(&p, "a", None)).unwrap();
    add_idea(&mut s, idea_input(&q, "b", None)).unwrap();
    add_doc(&mut s, doc_input(&p, "d", "x")).unwrap();
    add_task(&mut s, task_input("loose")).unwrap();
    create_task_from_idea(
        &mut s,
        IdeaToTaskInput { idea_id: i, category: "c".to_string(), description: None, start_at: None, end_est_at: None },
    )
    .unwrap();
    assert_eq!(count_tasks_by_project(&s, p.clone()).unwrap(), 1);
    assert_eq!(count_ideas_by_project(&s, p.clone()).unwrap(), 1);
    assert_eq!(count_docs_by_project(&s, p).unwrap(), 1);
    assert_eq!(count_docs_by_project(&s, q).unwrap(), 0);
}

#[test]
fn status_names_parse_back() {
    assert_eq!(TaskStatus::from_name(&"stage-complete".to_string()), Some(TaskStatus::StageComplete));
    assert_eq!(IdeaStatus::from_name(&"paused".to_string()), Some(IdeaStatus::Paused));
    assert_eq!(DocStatus::from_name(&"in_review".to_string()), Some(DocStatus::InReview));
    assert_eq!(TaskStatus::from_name(&"Todo".to_string()), None);
    assert_eq!(DocStatus::from_name(&"in-review".to_string()), None);
}

#[test]
fn well_known_ids_need_matching_kind_and_name() {
    let f = "abc".to_string();
    assert_eq!(workspace_id(&"personal".to_string(), &"PeRsOnAl".to_string(), &f), "ws_personal");
    assert_eq!(workspace_id(&"work".to_string(), &"work".to_string(), &f), "ws_work");
    assert_eq!(workspace_id(&"work".to_string(), &"Personal".to_string(), &f), "ws_abc");
    assert_eq!(workspace_id(&"custom".to_string(), &"work".to_string(), &f), "ws_abc");
}

#[test]
fn taken_fresh_workspace_id_is_refused() {
    let mut s = store();
    let input = || CreateWorkspaceInput { name: "Side".to_string(), kind: "custom".to_string() };
    let a = create_workspace_at(&mut s, input(), "x1".to_string(), 5).unwrap();
    assert_eq!(a, "ws_x1");
    let r = create_workspace_at(&mut s, input(), "x1".to_string(), 6);
    assert!(matches!(r, Err(AppError::Constraint(_))));
    assert_eq!(s.workspaces.len(), 1);
    let again = create_workspace_at(
        &mut s,
        CreateWorkspaceInput { name: "personal".to_string(), kind: "personal".to_string() },
        "x2".to_string(),
        7,
    );
    assert_eq!(again.unwrap(), "ws_personal");
}

#[test]
fn unknown_workspace_kind_is_refused() {
    let mut s = store();
    let r = create_workspace(&mut s, CreateWorkspaceInput { name: "Club".to_string(), kind: "club".to_string() });
    assert!(matches!(r, Err(AppError::Validation(_))));
    assert!(s.workspaces.is_empty());
}

#[test]
fn unknown_project_status_is_refused() {
    let mut s = store();
    let w = ws(&mut s, "Personal", "personal");
    let r = create_project(
        &mut s,
        CreateProjectInput { workspace_id: w, name: "P".to_string(), description: None, status: "done".to_string() },
    );
    assert!(matches!(r, Err(AppError::Validation(_))));
    assert!(s.projects.is_empty());
}

#[test]
fn unknown_link_kind_is_refused() {
    let mut s = store();
    let w = ws(&mut s, "Personal", "personal");
    let p = project(&mut s, &w, "P");
    let i = add_idea(&mut s, idea_input(&p, "t", None)).unwrap();
    let r = add_idea_link(
        &mut s,
        IdeaLinkInput { idea_id: i, kind: "blog".to_string(), url: "http://x".to_string(), title: None },
    );
    assert!(matches!(r, Err(AppError::Validation(_))));
    assert!(s.idea_links.is_empty());
}

#[test]
fn search_matches_term_prefixes_only() {
    let mut s = store();
    let w = ws(&mut s, "Personal", "personal");
    let p = project(&mut s, &w, "P");
    let a = add_idea(&mut s, idea_input(&p, "Football plans", None)).unwrap();
    add_idea(&mut s, idea_input(&p, "seafood", None)).unwrap();
    let b = add_idea(&mut s, idea_input(&p, "x", Some("new-food ideas"))).unwrap();
    let hits: Vec<String> = search_ideas(&s, "FOO".to_string(), None).unwrap().into_iter().map(|h| h.0).collect();
    assert_eq!(hits, vec![b, a]);
    assert!(search_ideas(&s, "oo".to_string(), None).unwrap().is_empty());
    let d = add_doc(&mut s, doc_input(&p, "Notes", "rustacean")).unwrap();
    let docs: Vec<String> = search_docs(&s, "rust".to_string(), None).unwrap().into_iter().map(|h| h.0).collect();
    assert_eq!(docs, vec![d]);
    assert!(search_docs(&s, "acean".to_string(), None).unwrap().is_empty());
}
