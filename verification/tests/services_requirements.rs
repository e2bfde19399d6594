//! Requirement lifecycle over the store.

use req_engine::domain::models::{CreateRequirementInput, Requirement};
use req_engine::domain::state::{Role, Status, TransitionError};
use req_engine::services::requirements::{
    cancel_requirement, claim_task, complete_review, create_requirement, get_requirement,
    list_events_for_requirement, list_ready_tasks, list_requirements_for_project,
    list_requirements_for_project_filtered, release_task, report_progress, submit_for_review,
    update_requirement, CreateRequirementError, UpdateRequirementError, UpdateRequirementInput,
    VerbError,
};
use req_engine::services::requirements::create_requirement_at;
use req_engine::services::{archive_project, create_project, Board};

fn input(project_id: &str, title: &str, deps: &str) -> CreateRequirementInput {
    CreateRequirementInput {
        project_id: project_id.to_string(),
        title: title.to_string(),
        description: "".into(),
        priority: "high".into(),
        scope_json: "[]".into(),
        non_scope_json: "[]".into(),
        acceptance_json: "[]".into(),
        dependencies_json: deps.to_string(),
        created_by: "planner".into(),
    }
}

fn seed_todo(board: &mut Board) -> Requirement {
    let p = create_project(board, "Demo", "#000", "", "").unwrap();
    create_requirement(
        board,
        CreateRequirementInput {
            project_id: p.id,
            title: "Ship MVP".into(),
            description: "Task A".into(),
            priority: "high".into(),
            scope_json: "[]".into(),
            non_scope_json: "[]".into(),
            acceptance_json: "[]".into(),
            dependencies_json: "[]".into(),
            created_by: "planner".into(),
        },
    )
    .unwrap()
}

fn set_status(board: &mut Board, id: &str, status: Status) {
    for r in board.requirements.iter_mut() {
        if r.id == id {
            r.status = status;
        }
    }
}

#[test]
fn create_sets_status_todo() {
    let mut board = Board::new();
    let req = seed_todo(&mut board);
    assert_eq!(req.status, Status::Todo);
    assert!(req.claimed_by.is_none());
}

#[test]
fn claim_success() {
    let mut board = Board::new();
    let req = seed_todo(&mut board);
    let claimed = claim_task(&mut board, &req.id, "alice", Role::Foreman).unwrap();
    assert_eq!(claimed.status, Status::InProgress);
    assert_eq!(claimed.claimed_by.as_deref(), Some("alice"));
}

#[test]
fn claim_twice_only_one_winner() {
    let mut board = Board::new();
    let req = seed_todo(&mut board);

    let first = claim_task(&mut board, &req.id, "alice", Role::Foreman);
    assert!(first.is_ok(), "first claim should win: {first:?}");

    let second = claim_task(&mut board, &req.id, "bob", Role::Foreman);
    assert!(second.is_err(), "second claim must fail, got: {second:?}");
    match second.unwrap_err() {
        VerbError::Transition(TransitionError::AlreadyClaimed { claimed_by }) => {
            assert_eq!(claimed_by, "alice");
        }
        VerbError::Transition(TransitionError::NotClaimable { status }) => {
            assert_eq!(status, Status::InProgress);
        }
        VerbError::ConcurrentClaimLost => {}
        other => panic!("unexpected error: {other:?}"),
    }

    let stored = get_requirement(&board, &req.id).unwrap();
    assert_eq!(stored.claimed_by.as_deref(), Some("alice"));
    assert_eq!(stored.status, Status::InProgress);
}

#[test]
fn claim_missing_requirement() {
    let mut board = Board::new();
    let err = claim_task(&mut board, "no-such-id", "alice", Role::Foreman).unwrap_err();
    assert!(matches!(err, VerbError::NotFound(_)));
    assert_eq!(err.message(), "requirement not found: no-such-id");
}

#[test]
fn full_happy_path_create_claim_submit_complete_pass() {
    let mut board = Board::new();
    let req = seed_todo(&mut board);

    let claimed = claim_task(&mut board, &req.id, "foreman", Role::Foreman).unwrap();
    assert_eq!(claimed.status, Status::InProgress);

    report_progress(&mut board, &req.id, "foreman", Role::Foreman, Some("halfway"), None).unwrap();

    let in_review = submit_for_review(&mut board, &req.id, "foreman", Role::Foreman).unwrap();
    assert_eq!(in_review.status, Status::Review);

    let done =
        complete_review(&mut board, &req.id, "admin", Role::Admin, true, Some("looks good")).unwrap();
    assert_eq!(done.status, Status::Done);

    let events = list_events_for_requirement(&board, &req.id);
    let kinds: Vec<_> = events.iter().map(|e| e.kind.as_str()).collect();
    assert!(kinds.contains(&"create"));
    assert!(kinds.contains(&"claim_task"));
    assert!(kinds.contains(&"report_progress"));
    assert!(kinds.contains(&"submit_for_review"));
    assert!(kinds.contains(&"complete_review_pass"));
}

#[test]
fn release_clears_claim() {
    let mut board = Board::new();
    let req = seed_todo(&mut board);
    claim_task(&mut board, &req.id, "foreman", Role::Foreman).unwrap();
    let released = release_task(&mut board, &req.id, "foreman", Role::Foreman).unwrap();
    assert_eq!(released.status, Status::Todo);
    assert!(released.claimed_by.is_none());
}

#[test]
fn cancel_by_planner_on_todo() {
    let mut board = Board::new();
    let req = seed_todo(&mut board);
    let cancelled = cancel_requirement(&mut board, &req.id, "planner", Role::Planner).unwrap();
    assert_eq!(cancelled.status, Status::Cancelled);
}

#[test]
fn update_only_when_todo() {
    let mut board = Board::new();
    let req = seed_todo(&mut board);
    let updated = update_requirement(
        &mut board,
        &req.id,
        "planner",
        UpdateRequirementInput {
            title: Some("New title".into()),
            description: Some("d".into()),
            ..Default::default()
        },
    )
    .unwrap();
    assert_eq!(updated.title, "New title");
    assert_eq!(updated.description, "d");

    let mut board2 = Board::new();
    let req2 = seed_todo(&mut board2);
    claim_task(&mut board2, &req2.id, "foreman", Role::Foreman).unwrap();
    let err = update_requirement(
        &mut board2,
        &req2.id,
        "planner",
        UpdateRequirementInput { title: Some("x".into()), ..Default::default() },
    )
    .unwrap_err();
    assert!(matches!(err, UpdateRequirementError::NotTodo(_)));
    assert_eq!(err.message(), "update only allowed when status is todo (current: in_progress)");
}

#[test]
fn archived_project_rejects_create_and_verbs() {
    let mut board = Board::new();
    let req = seed_todo(&mut board);
    archive_project(&mut board, &req.project_id).unwrap();

    let err = create_requirement(&mut board, input(&req.project_id, "after archive", "[]")).unwrap_err();
    assert!(matches!(err, CreateRequirementError::ProjectArchived(_)), "got {err:?}");

    let err = claim_task(&mut board, &req.id, "alice", Role::Foreman).unwrap_err();
    assert!(matches!(err, VerbError::ProjectArchived(_)), "got {err:?}");
}

#[test]
fn list_ready_tasks_respects_dependencies() {
    let mut board = Board::new();
    let p = create_project(&mut board, "Demo", "#000", "", "").unwrap();
    let dep = create_requirement(&mut board, input(&p.id, "Dep", "[]")).unwrap();
    let blocked =
        create_requirement(&mut board, input(&p.id, "Blocked", &format!("[\"{}\"]", dep.id))).unwrap();
    let free = create_requirement(&mut board, input(&p.id, "Free", "[]")).unwrap();

    let ready = list_ready_tasks(&board, Some(&p.id));
    let ids: Vec<_> = ready.iter().map(|r| r.id.as_str()).collect();
    assert!(ids.contains(&dep.id.as_str()));
    assert!(ids.contains(&free.id.as_str()));
    assert!(!ids.contains(&blocked.id.as_str()));

    set_status(&mut board, &dep.id, Status::Done);
    let ready2 = list_ready_tasks(&board, Some(&p.id));
    let ids2: Vec<_> = ready2.iter().map(|r| r.id.as_str()).collect();
    assert!(ids2.contains(&blocked.id.as_str()));
}

#[test]
fn claim_rejects_unsatisfied_dependencies() {
    let mut board = Board::new();
    let p = create_project(&mut board, "Demo", "#000", "", "").unwrap();
    let dep = create_requirement(&mut board, input(&p.id, "Dep", "[]")).unwrap();
    let blocked =
        create_requirement(&mut board, input(&p.id, "Blocked", &format!("[\"{}\"]", dep.id))).unwrap();

    let err = claim_task(&mut board, &blocked.id, "alice", Role::Foreman).unwrap_err();
    assert!(matches!(err, VerbError::DependenciesNotMet), "got {err:?}");
    let stored = get_requirement(&board, &blocked.id).unwrap();
    assert_eq!(stored.status, Status::Todo);
    assert!(stored.claimed_by.is_none());

    set_status(&mut board, &dep.id, Status::Done);
    let claimed = claim_task(&mut board, &blocked.id, "alice", Role::Foreman).unwrap();
    assert_eq!(claimed.status, Status::InProgress);
}

#[test]
fn list_by_project_and_status() {
    let mut board = Board::new();
    let p = create_project(&mut board, "Demo", "#000", "", "").unwrap();
    let q = create_project(&mut board, "Other", "#000", "", "").unwrap();
    let a = create_requirement(&mut board, input(&p.id, "A", "[]")).unwrap();
    let b = create_requirement(&mut board, input(&p.id, "B", "[]")).unwrap();
    create_requirement(&mut board, input(&q.id, "C", "[]")).unwrap();
    claim_task(&mut board, &b.id, "f", Role::Foreman).unwrap();
    let all: Vec<String> = list_requirements_for_project(&board, &p.id).into_iter().map(|r| r.title).collect();
    assert_eq!(all, vec!["A", "B"]);
    let todo = list_requirements_for_project_filtered(&board, &p.id, Some(Status::Todo));
    assert_eq!(todo.len(), 1);
    assert_eq!(todo[0].id, a.id);
}

#[test]
fn reject_needs_reason_and_verb_messages() {
    let mut board = Board::new();
    let req = seed_todo(&mut board);
    claim_task(&mut board, &req.id, "f", Role::Foreman).unwrap();
    submit_for_review(&mut board, &req.id, "f", Role::Foreman).unwrap();
    let err = complete_review(&mut board, &req.id, "admin", Role::Admin, false, Some("  ")).unwrap_err();
    assert!(matches!(err, VerbError::RejectReasonRequired));
    assert_eq!(err.message(), "reject reason is required");
    let err = cancel_requirement(&mut board, &req.id, "f", Role::Foreman).unwrap_err();
    assert_eq!(err.message(), "role `foreman` cannot perform `cancel`");
    let back = complete_review(&mut board, &req.id, "admin", Role::Admin, false, Some("redo")).unwrap();
    assert_eq!(back.status, Status::Todo);
    assert!(back.claimed_by.is_none());
}

#[test]
fn cancelled_card_stays_and_log_only_grows() {
    let mut board = Board::new();
    let req = seed_todo(&mut board);
    let other = create_requirement(&mut board, input(&req.project_id, "Other", "[]")).unwrap();
    let n_reqs = board.requirements.len();
    let log_before: Vec<String> = board.events.iter().map(|e| e.id.clone()).collect();
    let c = cancel_requirement(&mut board, &req.id, "planner", Role::Planner).unwrap();
    assert_eq!(c.status, Status::Cancelled);
    assert_eq!(board.requirements.len(), n_reqs);
    assert_eq!(board.requirements[0].id, req.id);
    assert_eq!(board.requirements[1].id, other.id);
    assert_eq!(get_requirement(&board, &req.id).unwrap().status, Status::Cancelled);
    let log_after: Vec<String> = board.events.iter().map(|e| e.id.clone()).collect();
    assert_eq!(log_after.len(), log_before.len() + 1);
    assert_eq!(&log_after[..log_before.len()], &log_before[..]);
    // A refused verb leaves the store as it was.
    let err = claim_task(&mut board, &req.id, "foreman", Role::Foreman);
    assert!(err.is_err());
    assert_eq!(board.events.len(), log_after.len());
    assert_eq!(board.requirements.len(), n_reqs);
}

#[test]
fn listings_are_oldest_first() {
    let mut board = Board::new();
    let p = create_project(&mut board, "P", "#000", "", "").unwrap();
    create_requirement_at(&mut board, input(&p.id, "late", "[]"), "r-late", "e1", 300).unwrap();
    create_requirement_at(&mut board, input(&p.id, "early", "[]"), "r-early", "e2", 100).unwrap();
    create_requirement_at(&mut board, input(&p.id, "mid", "[]"), "r-mid", "e3", 200).unwrap();
    let titles = |v: Vec<Requirement>| v.into_iter().map(|r| r.title).collect::<Vec<_>>();
    assert_eq!(titles(list_requirements_for_project(&board, &p.id)), ["early", "mid", "late"]);
    assert_eq!(titles(list_ready_tasks(&board, None)), ["early", "mid", "late"]);
    assert_eq!(
        titles(list_requirements_for_project_filtered(&board, &p.id, Some(Status::Todo))),
        ["early", "mid", "late"]
    );
}
