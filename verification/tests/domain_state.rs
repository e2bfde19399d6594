//! Transition rules of the requirement lifecycle.

use req_engine::domain::state::{
    apply_transition, status_on_create, Role, Status, Transition, TransitionContext,
    TransitionError,
};

fn ctx(
    status: Status,
    role: Role,
    actor: &str,
    claimed_by: Option<&str>,
) -> TransitionContext {
    TransitionContext {
        current: status,
        role,
        actor: actor.to_string(),
        claimed_by: claimed_by.map(str::to_string),
    }
}

#[test]
fn create_is_always_todo() {
    assert_eq!(status_on_create(), Status::Todo);
}

#[test]
fn claim_from_todo_ok() {
    let c = ctx(Status::Todo, Role::Foreman, "alice", None);
    let r = apply_transition(&c, &Transition::ClaimTask).unwrap();
    assert_eq!(r.new_status, Status::InProgress);
    assert_eq!(r.claimed_by_update, Some(Some("alice".into())));
}

#[test]
fn claim_already_claimed_fails() {
    let c = ctx(Status::Todo, Role::Foreman, "bob", Some("alice"));
    let err = apply_transition(&c, &Transition::ClaimTask).unwrap_err();
    assert!(matches!(err, TransitionError::AlreadyClaimed { .. }));
}

#[test]
fn claim_from_in_progress_fails() {
    let c = ctx(Status::InProgress, Role::Foreman, "alice", Some("alice"));
    let err = apply_transition(&c, &Transition::ClaimTask).unwrap_err();
    assert!(matches!(err, TransitionError::NotClaimable { .. }));
}

#[test]
fn submit_for_review_requires_claimant() {
    let c = ctx(Status::InProgress, Role::Foreman, "bob", Some("alice"));
    let err = apply_transition(&c, &Transition::SubmitForReview).unwrap_err();
    assert!(matches!(err, TransitionError::NotClaimant { .. }));
}

#[test]
fn submit_for_review_admin_ok_even_if_not_claimant() {
    let c = ctx(Status::InProgress, Role::Admin, "admin", Some("alice"));
    let r = apply_transition(&c, &Transition::SubmitForReview).unwrap();
    assert_eq!(r.new_status, Status::Review);
}

#[test]
fn submit_for_review_ok() {
    let c = ctx(Status::InProgress, Role::Foreman, "alice", Some("alice"));
    let r = apply_transition(&c, &Transition::SubmitForReview).unwrap();
    assert_eq!(r.new_status, Status::Review);
}

#[test]
fn complete_review_pass_done() {
    let c = ctx(Status::Review, Role::Planner, "planner1", Some("alice"));
    let r = apply_transition(&c, &Transition::CompleteReview { pass: true }).unwrap();
    assert_eq!(r.new_status, Status::Done);
}

#[test]
fn complete_review_fail_back_to_todo() {
    let c = ctx(Status::Review, Role::Planner, "planner1", Some("alice"));
    let r = apply_transition(&c, &Transition::CompleteReview { pass: false }).unwrap();
    assert_eq!(r.new_status, Status::Todo);
    assert_eq!(r.claimed_by_update, Some(None));
}

#[test]
fn foreman_cannot_complete_review() {
    let c = ctx(Status::Review, Role::Foreman, "alice", Some("alice"));
    let err =
        apply_transition(&c, &Transition::CompleteReview { pass: true }).unwrap_err();
    assert!(matches!(err, TransitionError::ForbiddenRole { .. }));
}

#[test]
fn release_task_claimant_or_admin() {
    let c = ctx(Status::InProgress, Role::Foreman, "alice", Some("alice"));
    let r = apply_transition(&c, &Transition::ReleaseTask).unwrap();
    assert_eq!(r.new_status, Status::Todo);
    assert_eq!(r.claimed_by_update, Some(None));

    let c2 = ctx(Status::InProgress, Role::Foreman, "bob", Some("alice"));
    assert!(apply_transition(&c2, &Transition::ReleaseTask).is_err());

    let c3 = ctx(Status::InProgress, Role::Admin, "admin", Some("alice"));
    let r3 = apply_transition(&c3, &Transition::ReleaseTask).unwrap();
    assert_eq!(r3.new_status, Status::Todo);
    assert_eq!(r3.claimed_by_update, Some(None));
}

#[test]
fn planner_cancel_todo_only() {
    let c = ctx(Status::Todo, Role::Planner, "p1", None);
    assert_eq!(
        apply_transition(&c, &Transition::Cancel)
            .unwrap()
            .new_status,
        Status::Cancelled
    );

    let c2 = ctx(Status::InProgress, Role::Planner, "p1", Some("alice"));
    assert!(matches!(
        apply_transition(&c2, &Transition::Cancel).unwrap_err(),
        TransitionError::IllegalFromStatus { .. }
    ));
}

#[test]
fn admin_can_cancel_in_progress() {
    let c = ctx(Status::InProgress, Role::Admin, "admin", Some("alice"));
    let r = apply_transition(&c, &Transition::Cancel).unwrap();
    assert_eq!(r.new_status, Status::Cancelled);
}

#[test]
fn foreman_cannot_cancel() {
    let c = ctx(Status::Todo, Role::Foreman, "alice", None);
    assert!(matches!(
        apply_transition(&c, &Transition::Cancel).unwrap_err(),
        TransitionError::ForbiddenRole { .. }
    ));
}

#[test]
fn done_is_terminal() {
    let c = ctx(Status::Done, Role::Admin, "admin", Some("alice"));
    assert!(matches!(
        apply_transition(&c, &Transition::Cancel).unwrap_err(),
        TransitionError::Terminal { .. }
    ));
    assert!(apply_transition(&c, &Transition::ClaimTask).is_err());
}

#[test]
fn cancelled_is_terminal() {
    let c = ctx(Status::Cancelled, Role::Admin, "admin", None);
    assert!(matches!(
        apply_transition(&c, &Transition::ClaimTask).unwrap_err(),
        TransitionError::Terminal { .. }
    ));
}

#[test]
fn report_progress_no_status_change() {
    let c = ctx(Status::InProgress, Role::Foreman, "alice", Some("alice"));
    let r = apply_transition(&c, &Transition::ReportProgress).unwrap();
    assert_eq!(r.new_status, Status::InProgress);
    assert_eq!(r.claimed_by_update, None);
}

#[test]
fn illegal_submit_from_todo() {
    let c = ctx(Status::Todo, Role::Foreman, "alice", None);
    assert!(matches!(
        apply_transition(&c, &Transition::SubmitForReview).unwrap_err(),
        TransitionError::IllegalFromStatus { .. }
    ));
}

#[test]
fn no_free_form_status_api_exists() {
    // Compile-time / API surface: only Transition verbs; Status is set via apply_transition.
    // This test documents that callers must go through verbs.
    let allowed = [
        Transition::ClaimTask,
        Transition::ReportProgress,
        Transition::SubmitForReview,
        Transition::CompleteReview { pass: true },
        Transition::CompleteReview { pass: false },
        Transition::ReleaseTask,
        Transition::Cancel,
    ];
    assert_eq!(allowed.len(), 7);
}
